//! The supervision of one cast session.
//!
//! The session is a machine that takes events (a channel was opened, a message
//! came, a timer ran out) and says what to do next. It opens a channel,
//! launches the media receiver, and has it play the rendition; it keeps the
//! channel alive, and starts over where the channel dies. After such a blip it
//! asks first what runs: a session that survived is taken up again as it is.
//!
//! A device that another sender took is left to that sender. The session then
//! keeps the channel and touches nothing else until an operator restarts it.

use vstd::prelude::*;

use crate::devices::broadcaster::DeviceBroadcaster;
use crate::devices::cast::media::CastMediaTarget;
use crate::devices::cast::protocol::{
    close_frame, connect_frame, decode, get_status_frame, launch_frame, load_frame, ping_frame,
    pong_frame, set_volume_frame, stop_frame, CastFrame, InboundMessage, MediaStatusEntry,
    PlayerState, ReceiverApplication, DEFAULT_MEDIA_RECEIVER_APP_ID, PLATFORM_RECEIVER_ID,
};
use crate::devices::registry::{DeviceCapabilities, DeviceStatus};
use crate::devices::state_machine::{DeviceLifecycle, DeviceState, LifecycleEvent};
use crate::devices::sync_runtime::AchievedSync;
use crate::devices::zowietek::poller::{step_for, PollerControl, PollerStep};
use crate::text::{cat2, str_eq};
use crate::time::Duration;

verus! {

/// A channel failed.
#[derive(Debug, PartialEq, Eq)]
pub struct CastChannelError {
    /// How.
    pub message: String,
}

impl CastChannelError {
    /// A failure with its cause.
    pub fn new(message: &str) -> (r: Self)
        ensures
            r.message@ == message@,
    {
        CastChannelError { message: message.to_owned() }
    }

    /// The failure in words.
    pub fn text(&self) -> (r: String)
        ensures
            r@ == "cast channel error: "@ + self.message@,
    {
        cat2("cast channel error: ", self.message.as_str())
    }
}

/// The cadence of a session.
#[derive(Debug, Clone, Copy, PartialEq, Eq, Structural)]
pub struct CastSessionConfig {
    /// The time between two pings.
    pub ping_interval: Duration,
    /// How long a channel may stay silent.
    pub pong_timeout: Duration,
    /// The wait before a channel is opened again.
    pub reconnect_delay: Duration,
    /// The wait before a rendition is loaded again.
    pub reload_delay: Duration,
    /// How long a receiver may take to launch, or to say what runs.
    pub launch_timeout: Duration,
}

impl CastSessionConfig {
    /// A cadence of milliseconds, with a patient liveness window.
    pub fn test_fast() -> (r: Self)
        ensures
            r.ping_interval@ == 10_000_000,
            r.pong_timeout@ == 60_000_000_000,
            r.reconnect_delay@ == 5_000_000,
            r.reload_delay@ == 5_000_000,
            r.launch_timeout@ == 10_000_000,
    {
        CastSessionConfig {
            ping_interval: Duration::from_millis(10),
            pong_timeout: Duration::from_secs(60),
            reconnect_delay: Duration::from_millis(5),
            reload_delay: Duration::from_millis(5),
            launch_timeout: Duration::from_millis(10),
        }
    }
}

impl Default for CastSessionConfig {
    fn default() -> (r: Self)
        ensures
            r.ping_interval@ == 10_000_000_000,
            r.pong_timeout@ == 20_000_000_000,
            r.reconnect_delay@ == 5_000_000_000,
            r.reload_delay@ == 5_000_000_000,
            r.launch_timeout@ == 10_000_000_000,
    {
        CastSessionConfig {
            ping_interval: Duration::from_secs(10),
            pong_timeout: Duration::from_secs(20),
            reconnect_delay: Duration::from_secs(5),
            reload_delay: Duration::from_secs(5),
            launch_timeout: Duration::from_secs(10),
        }
    }
}

/// What every Cast receiver can do.
pub open spec fn cast_capabilities() -> DeviceCapabilities {
    DeviceCapabilities {
        encode: false,
        decode: true,
        display: true,
        sync: AchievedSync { rank: 0 },
        audio: true,
        reboot: false,
        firmware_update: false,
    }
}

/// The app that this session launched.
#[derive(Debug, PartialEq, Eq)]
pub struct LaunchedApp {
    /// The session as which it runs.
    pub session_id: String,
    /// Where its media messages go.
    pub transport_id: String,
}

impl Clone for LaunchedApp {
    fn clone(&self) -> (r: Self)
        ensures
            r == *self,
    {
        LaunchedApp { session_id: self.session_id.clone(), transport_id: self.transport_id.clone() }
    }
}

/// What a session last showed of itself.
#[derive(Debug, Clone, Copy, PartialEq, Eq, Structural)]
pub enum CastMode {
    /// It was never established.
    Connecting,
    /// The rendition was loaded and nothing was heard of it.
    Loading,
    /// The app is gone and will be launched again.
    Relaunching,
    /// The rendition was refused.
    LoadFailed,
    /// The media session is gone.
    NoMedia,
    /// Another sender took the device.
    Preempted,
    /// What the player does.
    Player(PlayerState),
}

/// The published name of a mode.
pub open spec fn mode_name(m: CastMode) -> Seq<char> {
    match m {
        CastMode::Connecting => "connecting"@,
        CastMode::Loading => "loading"@,
        CastMode::Relaunching => "relaunching"@,
        CastMode::LoadFailed => "load-failed"@,
        CastMode::NoMedia => "no-media"@,
        CastMode::Preempted => "preempted"@,
        CastMode::Player(p) => crate::devices::cast::protocol::player_token(p),
    }
}

impl CastMode {
    /// The published name.
    pub fn token(self) -> (r: &'static str)
        ensures
            r@ == mode_name(self),
    {
        match self {
            CastMode::Connecting => "connecting",
            CastMode::Loading => "loading",
            CastMode::Relaunching => "relaunching",
            CastMode::LoadFailed => "load-failed",
            CastMode::NoMedia => "no-media",
            CastMode::Preempted => "preempted",
            CastMode::Player(p) => p.mode_token(),
        }
    }
}

/// What is being sent on an established channel.
#[derive(Debug, Clone, Copy, PartialEq, Eq, Structural)]
pub enum Sending {
    /// A sign of life, or a volume, or the rendition again: nothing follows.
    Plain,
    /// A ping: the next one is due an interval later.
    Ping,
    /// The stop of the app: the close of the channel follows.
    Stop,
    /// The close of the channel: the session ends.
    Close,
}

/// Where a session stands.
#[derive(Debug, PartialEq, Eq)]
#[allow(inconsistent_fields)]
pub enum Phase {
    /// There is no channel.
    Down,
    /// A channel is being opened.
    Dialing,
    /// The conversation with the platform is being opened.
    Greeting,
    /// The question what runs is being sent.
    Asking,
    /// The answer to it is awaited.
    AwaitStatus {
        /// Until when.
        deadline: u64,
    },
    /// A sign of life is being sent meanwhile.
    StatusPong {
        /// Until when the answer is awaited.
        deadline: u64,
    },
    /// The conversation with a surviving app is being opened.
    Resuming {
        /// The app.
        app: LaunchedApp,
    },
    /// The launch is being sent.
    Launching,
    /// The app is awaited.
    AwaitApp {
        /// Until when.
        deadline: u64,
    },
    /// A sign of life is being sent meanwhile.
    LaunchPong {
        /// Until when the app is awaited.
        deadline: u64,
    },
    /// The conversation with the app is being opened.
    Joining {
        /// The app.
        app: LaunchedApp,
    },
    /// The rendition is being sent to the app.
    Loading {
        /// The app.
        app: LaunchedApp,
    },
    /// The channel is established.
    Up {
        /// When the next ping is due.
        next_ping: u64,
    },
    /// Something is being sent on the established channel.
    UpSending {
        /// What.
        what: Sending,
        /// When the next ping is due.
        next_ping: u64,
    },
    /// The session is over.
    Over,
}

/// A session. Instants are nanoseconds of a clock that does not run backwards.
#[derive(Debug, PartialEq, Eq)]
pub struct SessionState {
    /// Where it stands.
    pub phase: Phase,
    /// The state of the device.
    pub lifecycle: DeviceState,
    /// The app that is ours. It outlives the channel.
    pub app: Option<LaunchedApp>,
    /// The media session that is ours.
    pub media_session_id: Option<i64>,
    /// The last request id.
    pub request_id: u32,
    /// When the channel last gave a sign of life.
    pub last_inbound: u64,
    /// When the rendition is to be loaded again.
    pub reload_due: Option<u64>,
    /// Whether another sender took the device.
    pub preempted: bool,
    /// What the session last showed of itself.
    pub mode: CastMode,
}

/// A session that was not started.
pub open spec fn fresh(now: u64) -> SessionState {
    SessionState {
        phase: Phase::Down,
        lifecycle: DeviceState::Adopting,
        app: None,
        media_session_id: None,
        request_id: 0,
        last_inbound: now,
        reload_due: None,
        preempted: false,
        mode: CastMode::Connecting,
    }
}

/// What happened.
#[derive(Debug, PartialEq, Eq)]
pub enum SessionEvent {
    /// It is time to open a channel.
    Start,
    /// A channel was opened, or not.
    Dialed(bool),
    /// The message was sent, or not.
    Sent(bool),
    /// A message came.
    Message(InboundMessage),
    /// The channel failed while we listened.
    ReceiveFailed,
    /// The answer that was awaited did not come in time.
    TimedOut,
    /// The next ping is due.
    PingDue,
    /// The rendition is to be loaded again.
    ReloadDue,
    /// An operator's command.
    Control(PollerControl),
}

/// What to do next.
#[derive(Debug, PartialEq, Eq)]
pub enum SessionAction {
    /// Open a channel.
    Dial,
    /// Send a message.
    Send(CastFrame),
    /// Listen, and mind the timers.
    Listen,
    /// The channel is gone: wait the reconnect delay, then start.
    Pause,
    /// The session is over.
    Exit,
    /// Nothing: the event does not belong here.
    Ignore,
}

/// What to do next, its texts as sequences.
pub enum ActionView {
    /// Open a channel.
    Dial,
    /// Send a message.
    Send(crate::devices::cast::protocol::FrameView),
    /// Listen, and mind the timers.
    Listen,
    /// The channel is gone.
    Pause,
    /// The session is over.
    Exit,
    /// Nothing.
    Ignore,
}

impl SessionAction {
    /// The action, its texts as sequences.
    pub open spec fn view(self) -> ActionView {
        match self {
            SessionAction::Dial => ActionView::Dial,
            SessionAction::Send(f) => ActionView::Send(f@),
            SessionAction::Listen => ActionView::Listen,
            SessionAction::Pause => ActionView::Pause,
            SessionAction::Exit => ActionView::Exit,
            SessionAction::Ignore => ActionView::Ignore,
        }
    }
}

/// What the control plane is told.
#[derive(Debug, Clone, Copy, PartialEq, Eq, Structural)]
pub enum SessionEffect {
    /// The status of the device.
    Status {
        /// Its state.
        state: DeviceState,
        /// What the session shows of itself.
        mode: CastMode,
    },
    /// Another sender took the device.
    Preempted,
    /// The receiver took the rendition.
    LoadAccepted,
}

/// What an event came to.
pub struct Turn {
    /// The session after it.
    pub state: SessionState,
    /// What to do next.
    pub action: ActionView,
    /// What the control plane is told, in order.
    pub effects: Seq<SessionEffect>,
}

// ---- The machine -------------------------------------------------------------

/// An instant that lies `d` behind `now`, as far as the clock reaches.
pub open spec fn instant_after(now: u64, d: Duration) -> u64 {
    if now + d@ > u64::MAX {
        u64::MAX
    } else {
        (now + d@) as u64
    }
}

/// The request id after `id`.
pub open spec fn following(id: u32) -> u32 {
    if id == u32::MAX {
        0
    } else {
        (id + 1) as u32
    }
}

/// The status of a session.
pub open spec fn status_of(s: SessionState) -> SessionEffect {
    SessionEffect::Status { state: s.lifecycle, mode: s.mode }
}

/// The session after a lifecycle event.
pub open spec fn driven(s: SessionState, event: LifecycleEvent) -> SessionState {
    SessionState {
        lifecycle: crate::devices::state_machine::next_state(s.lifecycle, event),
        ..s
    }
}

/// The channel died. What is ours is remembered.
pub open spec fn channel_death(s: SessionState) -> Turn {
    let t = driven(
        SessionState { phase: Phase::Down, reload_due: None, ..s },
        LifecycleEvent::Unreachable,
    );
    Turn { state: t, action: ActionView::Pause, effects: seq![status_of(t)] }
}

/// The session as one that another sender took.
pub open spec fn taken(s: SessionState) -> SessionState {
    SessionState {
        preempted: true,
        app: None,
        media_session_id: None,
        reload_due: None,
        mode: CastMode::Preempted,
        ..s
    }
}

/// Nothing changes, and we listen on.
pub open spec fn listening(s: SessionState) -> Turn {
    Turn { state: s, action: ActionView::Listen, effects: Seq::empty() }
}

/// A lifecycle event, and we listen on.
pub open spec fn driven_turn(s: SessionState, event: LifecycleEvent) -> Turn {
    let t = driven(s, event);
    Turn { state: t, action: ActionView::Listen, effects: seq![status_of(t)] }
}

/// Send the launch.
pub open spec fn launch_turn(s: SessionState) -> Turn {
    let id = following(s.request_id);
    Turn {
        state: SessionState { phase: Phase::Launching, request_id: id, ..s },
        action: ActionView::Send(
            crate::devices::cast::protocol::launch_view(id, DEFAULT_MEDIA_RECEIVER_APP_ID@),
        ),
        effects: Seq::empty(),
    }
}

/// The conversation with the platform is open.
pub open spec fn greeted(config: CastSessionConfig, s: SessionState, now: u64) -> Turn {
    if s.preempted {
        let up = SessionState {
            phase: Phase::Up { next_ping: instant_after(now, config.ping_interval) },
            ..s
        };
        let first = driven(up, LifecycleEvent::Reconnect);
        let second = driven(first, LifecycleEvent::DeviceFault);
        Turn {
            state: second,
            action: ActionView::Listen,
            effects: seq![status_of(first), status_of(second)],
        }
    } else if s.app is Some {
        let id = following(s.request_id);
        Turn {
            state: SessionState { phase: Phase::Asking, request_id: id, ..s },
            action: ActionView::Send(crate::devices::cast::protocol::get_status_view(id)),
            effects: Seq::empty(),
        }
    } else {
        launch_turn(s)
    }
}

/// The channel is established and the rendition was sent.
pub open spec fn established(
    config: CastSessionConfig,
    s: SessionState,
    app: LaunchedApp,
    now: u64,
) -> Turn {
    driven_turn(
        SessionState {
            phase: Phase::Up { next_ping: instant_after(now, config.ping_interval) },
            app: Some(app),
            media_session_id: None,
            reload_due: None,
            mode: CastMode::Loading,
            ..s
        },
        LifecycleEvent::ProbeOk,
    )
}

/// The channel is established to an app that survived.
pub open spec fn resumed(
    config: CastSessionConfig,
    s: SessionState,
    app: LaunchedApp,
    now: u64,
) -> Turn {
    driven_turn(
        SessionState {
            phase: Phase::Up { next_ping: instant_after(now, config.ping_interval) },
            app: Some(app),
            reload_due: None,
            ..s
        },
        LifecycleEvent::ProbeOk,
    )
}

/// A message was sent.
pub open spec fn after_send(
    config: CastSessionConfig,
    media: CastMediaTarget,
    s: SessionState,
    ok: bool,
    now: u64,
) -> Turn {
    match s.phase {
        Phase::UpSending { what: Sending::Stop, next_ping } => Turn {
            state: SessionState {
                phase: Phase::UpSending { what: Sending::Close, next_ping },
                ..s
            },
            action: ActionView::Send(
                crate::devices::cast::protocol::close_view(PLATFORM_RECEIVER_ID@),
            ),
            effects: Seq::empty(),
        },
        Phase::UpSending { what: Sending::Close, .. } => Turn {
            state: SessionState { phase: Phase::Over, ..s },
            action: ActionView::Exit,
            effects: Seq::empty(),
        },
        Phase::Greeting => if ok {
            greeted(config, s, now)
        } else {
            channel_death(s)
        },
        Phase::Asking => if ok {
            listening(
                SessionState {
                    phase: Phase::AwaitStatus {
                        deadline: instant_after(now, config.launch_timeout),
                    },
                    ..s
                },
            )
        } else {
            channel_death(s)
        },
        Phase::StatusPong { deadline } => if ok {
            listening(SessionState { phase: Phase::AwaitStatus { deadline }, ..s })
        } else {
            channel_death(s)
        },
        Phase::Resuming { app } => if ok {
            resumed(config, s, app, now)
        } else {
            channel_death(s)
        },
        Phase::Launching => if ok {
            listening(
                SessionState {
                    phase: Phase::AwaitApp { deadline: instant_after(now, config.launch_timeout) },
                    ..s
                },
            )
        } else {
            channel_death(s)
        },
        Phase::LaunchPong { deadline } => if ok {
            listening(SessionState { phase: Phase::AwaitApp { deadline }, ..s })
        } else {
            channel_death(s)
        },
        Phase::Joining { app } => if ok {
            let id = following(s.request_id);
            Turn {
                state: SessionState { phase: Phase::Loading { app }, request_id: id, ..s },
                action: ActionView::Send(
                    crate::devices::cast::protocol::load_view(id, app.transport_id@, media),
                ),
                effects: Seq::empty(),
            }
        } else {
            channel_death(s)
        },
        Phase::Loading { app } => if ok {
            established(config, s, app, now)
        } else {
            channel_death(s)
        },
        Phase::UpSending { what, next_ping } => if ok {
            listening(
                SessionState {
                    phase: Phase::Up {
                        next_ping: if what == Sending::Ping {
                            instant_after(now, config.ping_interval)
                        } else {
                            next_ping
                        },
                    },
                    ..s
                },
            )
        } else {
            channel_death(s)
        },
        _ => Turn { state: s, action: ActionView::Ignore, effects: Seq::empty() },
    }
}

/// An app in a list runs as a session.
pub open spec fn runs_as(apps: Seq<ReceiverApplication>, session_id: Seq<char>) -> bool {
    exists|i: int| 0 <= i < apps.len() && (#[trigger] apps[i]).session_id@ == session_id
}

/// An app other than the idle screen runs.
pub open spec fn busy(apps: Seq<ReceiverApplication>) -> bool {
    exists|i: int| 0 <= i < apps.len() && !(#[trigger] apps[i]).is_idle_screen
}

/// The first app that runs as a session.
pub open spec fn first_as(apps: Seq<ReceiverApplication>, session_id: Seq<char>, i: int) -> bool {
    &&& 0 <= i < apps.len()
    &&& apps[i].session_id@ == session_id
    &&& forall|j: int| 0 <= j < i ==> (#[trigger] apps[j]).session_id@ != session_id
}

/// Where the first app that runs as a session stands.
pub open spec fn place_as(apps: Seq<ReceiverApplication>, session_id: Seq<char>) -> int {
    choose|i: int| first_as(apps, session_id, i)
}

/// The first row of the media receiver.
pub open spec fn first_receiver(apps: Seq<ReceiverApplication>, i: int) -> bool {
    &&& 0 <= i < apps.len()
    &&& apps[i].app_id@ == DEFAULT_MEDIA_RECEIVER_APP_ID@
    &&& forall|j: int|
        0 <= j < i ==> (#[trigger] apps[j]).app_id@ != DEFAULT_MEDIA_RECEIVER_APP_ID@
}

/// The app of a row.
pub open spec fn app_in(a: ReceiverApplication) -> LaunchedApp {
    LaunchedApp { session_id: a.session_id, transport_id: a.transport_id }
}

/// What runs, after a blip: our session, another sender's, or nothing.
pub open spec fn triaged(
    config: CastSessionConfig,
    s: SessionState,
    apps: Seq<ReceiverApplication>,
    now: u64,
) -> Turn {
    let ours = match s.app {
        Some(a) => a.session_id@,
        None => Seq::empty(),
    };
    if s.app is Some && runs_as(apps, ours) {
        let i = place_as(apps, ours);
        Turn {
            state: SessionState { phase: Phase::Resuming { app: app_in(apps[i]) }, ..s },
            action: ActionView::Send(
                crate::devices::cast::protocol::connect_view(apps[i].transport_id@),
            ),
            effects: Seq::empty(),
        }
    } else if busy(apps) {
        let t = taken(
            SessionState {
                phase: Phase::Up { next_ping: instant_after(now, config.ping_interval) },
                ..s
            },
        );
        let first = driven(t, LifecycleEvent::Reconnect);
        let second = driven(first, LifecycleEvent::DeviceFault);
        Turn {
            state: second,
            action: ActionView::Listen,
            effects: seq![SessionEffect::Preempted, status_of(first), status_of(second)],
        }
    } else {
        launch_turn(SessionState { app: None, media_session_id: None, ..s })
    }
}

/// A message came while we asked what runs.
pub open spec fn message_while_asking(
    config: CastSessionConfig,
    s: SessionState,
    deadline: u64,
    msg: InboundMessage,
    now: u64,
) -> Turn {
    match msg {
        InboundMessage::Ping => Turn {
            state: SessionState { phase: Phase::StatusPong { deadline }, ..s },
            action: ActionView::Send(crate::devices::cast::protocol::pong_view()),
            effects: Seq::empty(),
        },
        InboundMessage::ReceiverStatus(info) => triaged(config, s, info.applications@, now),
        InboundMessage::CloseConnection => channel_death(s),
        _ => listening(s),
    }
}

/// A message came while the app was awaited.
pub open spec fn message_while_launching(s: SessionState, deadline: u64, msg: InboundMessage) -> Turn {
    match msg {
        InboundMessage::Ping => Turn {
            state: SessionState { phase: Phase::LaunchPong { deadline }, ..s },
            action: ActionView::Send(crate::devices::cast::protocol::pong_view()),
            effects: Seq::empty(),
        },
        InboundMessage::ReceiverStatus(info) => {
            let apps = info.applications@;
            if exists|i: int| first_receiver(apps, i) {
                let i = choose|i: int| first_receiver(apps, i);
                Turn {
                    state: SessionState { phase: Phase::Joining { app: app_in(apps[i]) }, ..s },
                    action: ActionView::Send(
                        crate::devices::cast::protocol::connect_view(apps[i].transport_id@),
                    ),
                    effects: Seq::empty(),
                }
            } else {
                listening(s)
            }
        },
        InboundMessage::LaunchError { .. } => {
            let down = SessionState { phase: Phase::Down, app: None, ..s };
            let first = driven(down, LifecycleEvent::ProbeOk);
            let second = driven(first, LifecycleEvent::DeviceFault);
            Turn {
                state: second,
                action: ActionView::Pause,
                effects: seq![status_of(first), status_of(second)],
            }
        },
        InboundMessage::CloseConnection => channel_death(s),
        _ => listening(s),
    }
}

/// The rendition is to be loaded again, unless it already is.
pub open spec fn reload_scheduled(config: CastSessionConfig, s: SessionState, now: u64) -> Option<
    u64,
> {
    match s.reload_due {
        Some(t) => Some(t),
        None => Some(instant_after(now, config.reload_delay)),
    }
}

/// What the player of our media session does.
pub open spec fn player_turn(
    config: CastSessionConfig,
    s: SessionState,
    p: PlayerState,
    now: u64,
) -> Turn {
    let shown = SessionState { mode: CastMode::Player(p), ..s };
    if p == PlayerState::Idle {
        driven_turn(
            SessionState {
                reload_due: if s.preempted {
                    s.reload_due
                } else {
                    reload_scheduled(config, s, now)
                },
                ..shown
            },
            LifecycleEvent::DeviceFault,
        )
    } else {
        driven_turn(SessionState { reload_due: None, ..shown }, LifecycleEvent::Recover)
    }
}

/// The first media session with an id.
pub open spec fn first_media(entries: Seq<MediaStatusEntry>, id: i64, i: int) -> bool {
    &&& 0 <= i < entries.len()
    &&& entries[i].media_session_id == Some(id)
    &&& forall|j: int| 0 <= j < i ==> (#[trigger] entries[j]).media_session_id != Some(id)
}

/// The first media session that has something to play.
pub open spec fn first_active(entries: Seq<MediaStatusEntry>, i: int) -> bool {
    &&& 0 <= i < entries.len()
    &&& entries[i].player_state != PlayerState::Idle
    &&& forall|j: int| 0 <= j < i ==> (#[trigger] entries[j]).player_state == PlayerState::Idle
}

/// The media sessions on a device that is ours.
pub open spec fn media_turn(
    config: CastSessionConfig,
    s: SessionState,
    entries: Seq<MediaStatusEntry>,
    now: u64,
) -> Turn {
    if entries.len() == 0 {
        driven_turn(
            SessionState {
                reload_due: reload_scheduled(config, s, now),
                media_session_id: None,
                mode: CastMode::NoMedia,
                ..s
            },
            LifecycleEvent::DeviceFault,
        )
    } else {
        match s.media_session_id {
            Some(ours) => if exists|i: int| first_media(entries, ours, i) {
                let i = choose|i: int| first_media(entries, ours, i);
                player_turn(config, s, entries[i].player_state, now)
            } else if exists|i: int| first_active(entries, i) {
                let t = driven(taken(s), LifecycleEvent::DeviceFault);
                Turn {
                    state: t,
                    action: ActionView::Listen,
                    effects: seq![SessionEffect::Preempted, status_of(t)],
                }
            } else {
                listening(s)
            },
            None => if exists|i: int| first_active(entries, i) {
                let i = choose|i: int| first_active(entries, i);
                let t = player_turn(
                    config,
                    SessionState { media_session_id: entries[i].media_session_id, ..s },
                    entries[i].player_state,
                    now,
                );
                Turn { effects: seq![SessionEffect::LoadAccepted] + t.effects, ..t }
            } else {
                player_turn(config, s, entries[0].player_state, now)
            },
        }
    }
}

/// A message came on the established channel.
pub open spec fn message_while_up(
    config: CastSessionConfig,
    s: SessionState,
    next_ping: u64,
    msg: InboundMessage,
    now: u64,
) -> Turn {
    match msg {
        InboundMessage::Ping => Turn {
            state: SessionState {
                phase: Phase::UpSending { what: Sending::Plain, next_ping },
                ..s
            },
            action: ActionView::Send(crate::devices::cast::protocol::pong_view()),
            effects: Seq::empty(),
        },
        InboundMessage::CloseConnection => channel_death(s),
        InboundMessage::ReceiverStatus(info) => match s.app {
            None => listening(s),
            Some(app) => if runs_as(info.applications@, app.session_id@) {
                listening(s)
            } else if busy(info.applications@) {
                let t = driven(taken(s), LifecycleEvent::DeviceFault);
                Turn {
                    state: t,
                    action: ActionView::Listen,
                    effects: seq![SessionEffect::Preempted, status_of(t)],
                }
            } else {
                let t = driven(
                    SessionState {
                        phase: Phase::Down,
                        app: None,
                        media_session_id: None,
                        reload_due: None,
                        mode: CastMode::Relaunching,
                        ..s
                    },
                    LifecycleEvent::DeviceFault,
                );
                Turn { state: t, action: ActionView::Pause, effects: seq![status_of(t)] }
            },
        },
        InboundMessage::MediaStatus(entries) => if !s.preempted && s.app is Some {
            media_turn(config, s, entries@, now)
        } else {
            listening(s)
        },
        InboundMessage::LoadError { .. } => if !s.preempted && s.app is Some {
            driven_turn(
                SessionState {
                    media_session_id: None,
                    mode: CastMode::LoadFailed,
                    reload_due: reload_scheduled(config, s, now),
                    ..s
                },
                LifecycleEvent::DeviceFault,
            )
        } else {
            listening(s)
        },
        InboundMessage::LaunchError { .. } => driven_turn(s, LifecycleEvent::DeviceFault),
        _ => listening(s),
    }
}

/// A message came.
pub open spec fn after_message(
    config: CastSessionConfig,
    s: SessionState,
    msg: InboundMessage,
    now: u64,
) -> Turn {
    let heard = SessionState { last_inbound: now, ..s };
    match s.phase {
        Phase::AwaitStatus { deadline } => message_while_asking(config, heard, deadline, msg, now),
        Phase::AwaitApp { deadline } => message_while_launching(heard, deadline, msg),
        Phase::Up { next_ping } => message_while_up(config, heard, next_ping, msg, now),
        _ => Turn { state: s, action: ActionView::Ignore, effects: Seq::empty() },
    }
}

/// How long the channel has been silent.
pub open spec fn silence(s: SessionState, now: u64) -> nat {
    if now >= s.last_inbound {
        (now - s.last_inbound) as nat
    } else {
        0
    }
}

/// The next ping is due.
pub open spec fn after_ping_due(config: CastSessionConfig, s: SessionState, now: u64) -> Turn {
    match s.phase {
        Phase::Up { next_ping } => if silence(s, now) >= config.pong_timeout@ {
            channel_death(s)
        } else {
            Turn {
                state: SessionState {
                    phase: Phase::UpSending { what: Sending::Ping, next_ping },
                    ..s
                },
                action: ActionView::Send(crate::devices::cast::protocol::ping_view()),
                effects: Seq::empty(),
            }
        },
        _ => Turn { state: s, action: ActionView::Ignore, effects: Seq::empty() },
    }
}

/// The rendition is to be loaded again.
pub open spec fn after_reload_due(media: CastMediaTarget, s: SessionState) -> Turn {
    match s.phase {
        Phase::Up { next_ping } => {
            let cleared = SessionState { reload_due: None, ..s };
            match s.app {
                None => listening(cleared),
                Some(app) => {
                    let id = following(s.request_id);
                    Turn {
                        state: SessionState {
                            phase: Phase::UpSending { what: Sending::Plain, next_ping },
                            media_session_id: None,
                            request_id: id,
                            ..cleared
                        },
                        action: ActionView::Send(
                            crate::devices::cast::protocol::load_view(id, app.transport_id@, media),
                        ),
                        effects: Seq::empty(),
                    }
                },
            }
        },
        _ => Turn { state: s, action: ActionView::Ignore, effects: Seq::empty() },
    }
}

/// A turn that goes on as before: listening on a channel, waiting without one.
pub open spec fn unchanged(s: SessionState) -> Turn {
    Turn {
        state: s,
        action: if s.phase is Up {
            ActionView::Listen
        } else {
            ActionView::Pause
        },
        effects: Seq::empty(),
    }
}

/// An operator's command.
pub open spec fn after_control(s: SessionState, command: PollerControl) -> Turn {
    let id = following(s.request_id);
    let asked = SessionState { request_id: id, ..s };
    if s.phase is Up || s.phase is Down {
        match command {
            PollerControl::SetVolume { percent } => match s.phase {
                Phase::Up { next_ping } => Turn {
                    state: SessionState {
                        phase: Phase::UpSending { what: Sending::Plain, next_ping },
                        ..asked
                    },
                    action: ActionView::Send(
                        crate::devices::cast::protocol::set_volume_view(id, percent),
                    ),
                    effects: Seq::empty(),
                },
                _ => unchanged(asked),
            },
            PollerControl::StopCast => match (s.phase, s.app) {
                (Phase::Up { next_ping }, Some(app)) => Turn {
                    state: SessionState {
                        phase: Phase::UpSending { what: Sending::Stop, next_ping },
                        ..asked
                    },
                    action: ActionView::Send(
                        crate::devices::cast::protocol::stop_view(id, app.session_id@),
                    ),
                    effects: Seq::empty(),
                },
                _ => Turn {
                    state: SessionState { phase: Phase::Over, ..asked },
                    action: ActionView::Exit,
                    effects: Seq::empty(),
                },
            },
            _ => unchanged(s),
        }
    } else {
        Turn { state: s, action: ActionView::Ignore, effects: Seq::empty() }
    }
}

/// What an event comes to.
pub open spec fn turn(
    config: CastSessionConfig,
    media: CastMediaTarget,
    s: SessionState,
    event: SessionEvent,
    now: u64,
) -> Turn {
    match event {
        SessionEvent::Start => if s.phase is Down {
            Turn {
                state: SessionState { phase: Phase::Dialing, ..s },
                action: ActionView::Dial,
                effects: Seq::empty(),
            }
        } else {
            Turn { state: s, action: ActionView::Ignore, effects: Seq::empty() }
        },
        SessionEvent::Dialed(ok) => if s.phase is Dialing {
            if ok {
                Turn {
                    state: SessionState { phase: Phase::Greeting, last_inbound: now, ..s },
                    action: ActionView::Send(
                        crate::devices::cast::protocol::connect_view(PLATFORM_RECEIVER_ID@),
                    ),
                    effects: Seq::empty(),
                }
            } else {
                channel_death(s)
            }
        } else {
            Turn { state: s, action: ActionView::Ignore, effects: Seq::empty() }
        },
        SessionEvent::Sent(ok) => after_send(config, media, s, ok, now),
        SessionEvent::Message(msg) => after_message(config, s, msg, now),
        SessionEvent::ReceiveFailed => if s.phase is AwaitStatus || s.phase is AwaitApp
            || s.phase is Up {
            channel_death(s)
        } else {
            Turn { state: s, action: ActionView::Ignore, effects: Seq::empty() }
        },
        SessionEvent::TimedOut => if s.phase is AwaitStatus || s.phase is AwaitApp {
            channel_death(s)
        } else {
            Turn { state: s, action: ActionView::Ignore, effects: Seq::empty() }
        },
        SessionEvent::PingDue => after_ping_due(config, s, now),
        SessionEvent::ReloadDue => after_reload_due(media, s),
        SessionEvent::Control(command) => after_control(s, command),
    }
}

// ---- The actor ---------------------------------------------------------------

/// What to do, and what to tell the control plane.
#[derive(Debug, PartialEq, Eq)]
pub struct Outcome {
    /// What to do next.
    pub action: SessionAction,
    /// What the control plane is told, in order.
    pub effects: Vec<SessionEffect>,
}

/// The session after an event and what the event came to, as one.
pub open spec fn came_to(state: SessionState, o: Outcome) -> Turn {
    Turn { state, action: o.action@, effects: o.effects@ }
}

/// `now + d`, as far as the clock reaches.
fn instant_plus(now: u64, d: Duration) -> (r: u64)
    ensures
        r == instant_after(now, d),
{
    let n = d.as_nanos();
    if n > (u64::MAX - now) as u128 {
        u64::MAX
    } else {
        now + n as u64
    }
}

/// No effects.
fn no_effects() -> (r: Vec<SessionEffect>)
    ensures
        r@ == Seq::<SessionEffect>::empty(),
{
    Vec::new()
}

/// The first row that runs as a session.
fn find_session(apps: &Vec<ReceiverApplication>, session_id: &str) -> (r: Option<usize>)
    ensures
        match r {
            Some(i) => first_as(apps@, session_id@, i as int),
            None => !runs_as(apps@, session_id@),
        },
{
    let mut i: usize = 0;
    while i < apps.len()
        invariant
            i <= apps.len(),
            forall|j: int| 0 <= j < i ==> (#[trigger] apps@[j]).session_id@ != session_id@,
        decreases apps.len() - i,
    {
        if str_eq(apps[i].session_id.as_str(), session_id) {
            return Some(i);
        }
        i += 1;
    }
    None
}

/// The first row of the media receiver.
fn find_receiver(apps: &Vec<ReceiverApplication>) -> (r: Option<usize>)
    ensures
        match r {
            Some(i) => first_receiver(apps@, i as int),
            None => forall|i: int| !#[trigger] first_receiver(apps@, i),
        },
{
    let mut i: usize = 0;
    while i < apps.len()
        invariant
            i <= apps.len(),
            forall|j: int|
                0 <= j < i ==> (#[trigger] apps@[j]).app_id@ != DEFAULT_MEDIA_RECEIVER_APP_ID@,
        decreases apps.len() - i,
    {
        if str_eq(apps[i].app_id.as_str(), DEFAULT_MEDIA_RECEIVER_APP_ID) {
            return Some(i);
        }
        i += 1;
    }
    None
}

/// Whether an app other than the idle screen runs.
fn is_busy(apps: &Vec<ReceiverApplication>) -> (r: bool)
    ensures
        r == busy(apps@),
{
    let mut i: usize = 0;
    while i < apps.len()
        invariant
            i <= apps.len(),
            forall|j: int| 0 <= j < i ==> (#[trigger] apps@[j]).is_idle_screen,
        decreases apps.len() - i,
    {
        if !apps[i].is_idle_screen {
            assert(!apps@[i as int].is_idle_screen);
            return true;
        }
        i += 1;
    }
    false
}

/// The first media session with an id.
fn find_media(entries: &Vec<MediaStatusEntry>, id: i64) -> (r: Option<usize>)
    ensures
        match r {
            Some(i) => first_media(entries@, id, i as int),
            None => forall|i: int| !#[trigger] first_media(entries@, id, i),
        },
{
    let mut i: usize = 0;
    while i < entries.len()
        invariant
            i <= entries.len(),
            forall|j: int| 0 <= j < i ==> (#[trigger] entries@[j]).media_session_id != Some(id),
        decreases entries.len() - i,
    {
        if let Some(k) = entries[i].media_session_id {
            if k == id {
                return Some(i);
            }
        }
        i += 1;
    }
    None
}

/// The first media session that has something to play.
fn find_active(entries: &Vec<MediaStatusEntry>) -> (r: Option<usize>)
    ensures
        match r {
            Some(i) => first_active(entries@, i as int),
            None => forall|i: int| !#[trigger] first_active(entries@, i),
        },
{
    let mut i: usize = 0;
    while i < entries.len()
        invariant
            i <= entries.len(),
            forall|j: int|
                0 <= j < i ==> (#[trigger] entries@[j]).player_state == PlayerState::Idle,
        decreases entries.len() - i,
    {
        if entries[i].player_state != PlayerState::Idle {
            return Some(i);
        }
        i += 1;
    }
    None
}

/// The first of something is one.
proof fn lemma_first_as_unique(apps: Seq<ReceiverApplication>, session_id: Seq<char>, a: int, b: int)
    requires
        first_as(apps, session_id, a),
        first_as(apps, session_id, b),
    ensures
        a == b,
{
    if a < b {
        assert(apps[a].session_id@ == session_id);
    } else if b < a {
        assert(apps[b].session_id@ == session_id);
    }
}

proof fn lemma_first_receiver_unique(apps: Seq<ReceiverApplication>, a: int, b: int)
    requires
        first_receiver(apps, a),
        first_receiver(apps, b),
    ensures
        a == b,
{
    if a < b {
        assert(apps[a].app_id@ == DEFAULT_MEDIA_RECEIVER_APP_ID@);
    } else if b < a {
        assert(apps[b].app_id@ == DEFAULT_MEDIA_RECEIVER_APP_ID@);
    }
}

proof fn lemma_first_media_unique(entries: Seq<MediaStatusEntry>, id: i64, a: int, b: int)
    requires
        first_media(entries, id, a),
        first_media(entries, id, b),
    ensures
        a == b,
{
    if a < b {
        assert(entries[a].media_session_id == Some(id));
    } else if b < a {
        assert(entries[b].media_session_id == Some(id));
    }
}

proof fn lemma_first_active_unique(entries: Seq<MediaStatusEntry>, a: int, b: int)
    requires
        first_active(entries, a),
        first_active(entries, b),
    ensures
        a == b,
{
    if a < b {
        assert(entries[a].player_state != PlayerState::Idle);
    } else if b < a {
        assert(entries[b].player_state != PlayerState::Idle);
    }
}

/// What an effect publishes about a device.
pub open spec fn effect_event(device_id: Seq<char>, e: SessionEffect) -> Seq<
    crate::devices::broadcaster::EventView,
> {
    match e {
        SessionEffect::Status { state, mode } => seq![
            crate::devices::broadcaster::EventView::Status(cast_status(device_id, state, mode)),
        ],
        SessionEffect::Preempted => seq![
            crate::devices::broadcaster::EventView::Error(
                device_id,
                "cast session preempted by another sender; restart the session to reclaim the device"@,
            ),
        ],
        SessionEffect::LoadAccepted => Seq::empty(),
    }
}

/// The status of a cast device.
pub open spec fn cast_status(
    device_id: Seq<char>,
    state: DeviceState,
    mode: CastMode,
) -> crate::devices::registry::StatusView {
    crate::devices::registry::StatusView {
        device_id,
        state,
        mode: Some(mode_name(mode)),
        capabilities: Some(cast_capabilities()),
    }
}

/// What some effects publish about a device, in order.
pub open spec fn effect_events(device_id: Seq<char>, effects: Seq<SessionEffect>) -> Seq<
    crate::devices::broadcaster::EventView,
>
    decreases effects.len(),
{
    if effects.len() == 0 {
        Seq::empty()
    } else {
        effect_events(device_id, effects.drop_last()) + effect_event(device_id, effects.last())
    }
}

/// The statuses after some effects on a device.
pub open spec fn effect_statuses(
    device_id: Seq<char>,
    statuses: Map<Seq<char>, crate::devices::registry::StatusView>,
    effects: Seq<SessionEffect>,
) -> Map<Seq<char>, crate::devices::registry::StatusView>
    decreases effects.len(),
{
    if effects.len() == 0 {
        statuses
    } else {
        let before = effect_statuses(device_id, statuses, effects.drop_last());
        match effects.last() {
            SessionEffect::Status { state, mode } => before.insert(
                device_id,
                cast_status(device_id, state, mode),
            ),
            _ => before,
        }
    }
}

/// The supervision of one cast session.
#[derive(Debug, PartialEq, Eq)]
pub struct CastSessionActor {
    device_id: String,
    authority: String,
    media: CastMediaTarget,
    config: CastSessionConfig,
    state: SessionState,
}

impl CastSessionActor {
    /// The session.
    pub closed spec fn view(self) -> SessionState {
        self.state
    }

    /// The device as which it is published.
    pub closed spec fn device(self) -> Seq<char> {
        self.device_id@
    }

    /// The receiver.
    pub closed spec fn dials(self) -> Seq<char> {
        self.authority@
    }

    /// The rendition.
    pub closed spec fn plays(self) -> CastMediaTarget {
        self.media
    }

    /// The cadence.
    pub closed spec fn cadence(self) -> CastSessionConfig {
        self.config
    }

    /// Only the session itself changed.
    pub open spec fn same_but_state(self, other: CastSessionActor) -> bool {
        &&& self.device() == other.device()
        &&& self.dials() == other.dials()
        &&& self.plays() == other.plays()
        &&& self.cadence() == other.cadence()
    }

    /// A session that was not started.
    pub fn new(
        device_id: &str,
        authority: &str,
        media: CastMediaTarget,
        config: CastSessionConfig,
        now: u64,
    ) -> (r: Self)
        ensures
            r.device() == device_id@,
            r.dials() == authority@,
            r.plays() == media,
            r.cadence() == config,
            r@ == fresh(now),
            session_wf(r@),
    {
        CastSessionActor {
            device_id: device_id.to_owned(),
            authority: authority.to_owned(),
            media,
            config,
            state: SessionState {
                phase: Phase::Down,
                lifecycle: DeviceState::Adopting,
                app: None,
                media_session_id: None,
                request_id: 0,
                last_inbound: now,
                reload_due: None,
                preempted: false,
                mode: CastMode::Connecting,
            },
        }
    }

    /// The device as which this session is published.
    pub fn device_id(&self) -> (r: &str)
        ensures
            r@ == self.device(),
    {
        self.device_id.as_str()
    }

    /// The receiver to dial.
    pub fn authority(&self) -> (r: &str)
        ensures
            r@ == self.dials(),
    {
        self.authority.as_str()
    }

    /// The state of the device.
    pub fn state(&self) -> (r: DeviceState)
        ensures
            r == self@.lifecycle,
    {
        self.state.lifecycle
    }

    /// What the session has come to.
    pub fn step(&self) -> (r: PollerStep)
        ensures
            r == crate::devices::zowietek::poller::step_of(self@.lifecycle),
    {
        step_for(self.state.lifecycle)
    }

    /// Whether a command can be taken now: on an established channel, or
    /// without one.
    pub fn takes_control(&self) -> (r: bool)
        ensures
            r == (self@.phase is Up || self@.phase is Down),
    {
        match &self.state.phase {
            Phase::Up { .. } => true,
            Phase::Down => true,
            _ => false,
        }
    }

    /// How long to wait before another channel is dialed.
    pub fn reconnect_delay(&self) -> (r: Duration)
        ensures
            r == self.cadence().reconnect_delay,
    {
        self.config.reconnect_delay
    }

    /// Until when an answer is awaited.
    pub fn answer_deadline(&self) -> (r: Option<u64>)
        ensures
            r == match self@.phase {
                Phase::AwaitStatus { deadline } => Some(deadline),
                Phase::AwaitApp { deadline } => Some(deadline),
                _ => None,
            },
    {
        match &self.state.phase {
            Phase::AwaitStatus { deadline } => Some(*deadline),
            Phase::AwaitApp { deadline } => Some(*deadline),
            _ => None,
        }
    }

    /// The timer that has run out. A ping comes before a reload.
    pub fn timer_due(&self, now: u64) -> (r: Option<SessionEvent>)
        ensures
            r == match self@.phase {
                Phase::Up { next_ping } => if now >= next_ping {
                    Some(SessionEvent::PingDue)
                } else if self@.reload_due is Some && now >= self@.reload_due->0 {
                    Some(SessionEvent::ReloadDue)
                } else {
                    None
                },
                Phase::AwaitStatus { deadline } => if now >= deadline {
                    Some(SessionEvent::TimedOut)
                } else {
                    None
                },
                Phase::AwaitApp { deadline } => if now >= deadline {
                    Some(SessionEvent::TimedOut)
                } else {
                    None
                },
                _ => None,
            },
    {
        match &self.state.phase {
            Phase::Up { next_ping } => {
                if now >= *next_ping {
                    return Some(SessionEvent::PingDue);
                }
                match self.state.reload_due {
                    Some(t) => if now >= t {
                        Some(SessionEvent::ReloadDue)
                    } else {
                        None
                    },
                    None => None,
                }
            },
            Phase::AwaitStatus { deadline } => if now >= *deadline {
                Some(SessionEvent::TimedOut)
            } else {
                None
            },
            Phase::AwaitApp { deadline } => if now >= *deadline {
                Some(SessionEvent::TimedOut)
            } else {
                None
            },
            _ => None,
        }
    }

    /// The instant at which [`Self::timer_due`] next says something.
    pub fn next_timer(&self) -> (r: Option<u64>)
        ensures
            r == match self@.phase {
                Phase::Up { next_ping } => match self@.reload_due {
                    Some(t) => Some(
                        if t < next_ping {
                            t
                        } else {
                            next_ping
                        },
                    ),
                    None => Some(next_ping),
                },
                Phase::AwaitStatus { deadline } => Some(deadline),
                Phase::AwaitApp { deadline } => Some(deadline),
                _ => None,
            },
    {
        match &self.state.phase {
            Phase::Up { next_ping } => match self.state.reload_due {
                Some(t) => if t < *next_ping {
                    Some(t)
                } else {
                    Some(*next_ping)
                },
                None => Some(*next_ping),
            },
            Phase::AwaitStatus { deadline } => Some(*deadline),
            Phase::AwaitApp { deadline } => Some(*deadline),
            _ => None,
        }
    }

    /// The next request id.
    fn next_request_id(&mut self) -> (r: u32)
        ensures
            r == following(old(self)@.request_id),
            final(self).same_but_state(*old(self)),
            final(self)@ == (SessionState { request_id: r, ..old(self)@ }),
    {
        self.state.request_id = self.state.request_id.wrapping_add(1);
        self.state.request_id
    }

    /// Drive the lifecycle and publish the status.
    fn drive(&mut self, event: LifecycleEvent, effects: &mut Vec<SessionEffect>)
        ensures
            final(self).same_but_state(*old(self)),
            final(self)@ == driven(old(self)@, event),
            final(effects)@ == old(effects)@.push(status_of(final(self)@)),
    {
        self.state.lifecycle = DeviceLifecycle::transition(self.state.lifecycle, event);
        effects.push(
            SessionEffect::Status { state: self.state.lifecycle, mode: self.state.mode },
        );
    }

    /// Drive the lifecycle, and listen on.
    fn drive_and_listen(&mut self, event: LifecycleEvent) -> (r: Outcome)
        ensures
            final(self).same_but_state(*old(self)),
            came_to(final(self)@, r) == driven_turn(old(self)@, event),
    {
        let mut effects = no_effects();
        self.drive(event, &mut effects);
        assert(effects@ =~= driven_turn(old(self)@, event).effects);
        Outcome { action: SessionAction::Listen, effects }
    }

    /// The channel died.
    fn channel_died(&mut self) -> (r: Outcome)
        ensures
            final(self).same_but_state(*old(self)),
            came_to(final(self)@, r) == channel_death(old(self)@),
    {
        self.state.phase = Phase::Down;
        self.state.reload_due = None;
        let mut effects = no_effects();
        self.drive(LifecycleEvent::Unreachable, &mut effects);
        assert(effects@ =~= channel_death(old(self)@).effects);
        Outcome { action: SessionAction::Pause, effects }
    }

    /// Another sender took the device.
    fn note_preempted(&mut self, effects: &mut Vec<SessionEffect>)
        ensures
            final(self).same_but_state(*old(self)),
            final(self)@ == taken(old(self)@),
            final(effects)@ == old(effects)@.push(SessionEffect::Preempted),
    {
        self.state.preempted = true;
        self.state.app = None;
        self.state.media_session_id = None;
        self.state.reload_due = None;
        self.state.mode = CastMode::Preempted;
        effects.push(SessionEffect::Preempted);
    }

    /// Send a message.
    fn send(frame: CastFrame) -> (r: Outcome)
        ensures
            r.action@ == ActionView::Send(frame@),
            r.effects@ == Seq::<SessionEffect>::empty(),
    {
        Outcome { action: SessionAction::Send(frame), effects: no_effects() }
    }

    /// Listen on.
    fn listen() -> (r: Outcome)
        ensures
            r.action@ == ActionView::Listen,
            r.effects@ == Seq::<SessionEffect>::empty(),
    {
        Outcome { action: SessionAction::Listen, effects: no_effects() }
    }

    /// The event does not belong here.
    fn ignore() -> (r: Outcome)
        ensures
            r.action@ == ActionView::Ignore,
            r.effects@ == Seq::<SessionEffect>::empty(),
    {
        Outcome { action: SessionAction::Ignore, effects: no_effects() }
    }

    /// Send the launch.
    fn launch(&mut self) -> (r: Outcome)
        ensures
            final(self).same_but_state(*old(self)),
            came_to(final(self)@, r) == launch_turn(old(self)@),
    {
        let id = self.next_request_id();
        self.state.phase = Phase::Launching;
        CastSessionActor::send(launch_frame(id, DEFAULT_MEDIA_RECEIVER_APP_ID))
    }

    /// The conversation with the platform is open.
    fn on_greeted(&mut self, now: u64) -> (r: Outcome)
        ensures
            final(self).same_but_state(*old(self)),
            came_to(final(self)@, r) == greeted(old(self).cadence(), old(self)@, now),
    {
        if self.state.preempted {
            self.state.phase = Phase::Up { next_ping: instant_plus(now, self.config.ping_interval) };
            let mut effects = no_effects();
            self.drive(LifecycleEvent::Reconnect, &mut effects);
            self.drive(LifecycleEvent::DeviceFault, &mut effects);
            assert(effects@ =~= greeted(old(self).cadence(), old(self)@, now).effects);
            return Outcome { action: SessionAction::Listen, effects };
        }
        if self.state.app.is_some() {
            let id = self.next_request_id();
            self.state.phase = Phase::Asking;
            return CastSessionActor::send(get_status_frame(id));
        }
        self.launch()
    }

    /// A message was sent, or not.
    fn on_sent(&mut self, ok: bool, now: u64) -> (r: Outcome)
        ensures
            final(self).same_but_state(*old(self)),
            came_to(final(self)@, r) == after_send(
                old(self).cadence(),
                old(self).plays(),
                old(self)@,
                ok,
                now,
            ),
    {
        match &self.state.phase {
            Phase::UpSending { what, next_ping } => {
                let sending = *what;
                let due = *next_ping;
                match sending {
                    Sending::Stop => {
                        self.state.phase = Phase::UpSending {
                            what: Sending::Close,
                            next_ping: due,
                        };
                        CastSessionActor::send(close_frame(PLATFORM_RECEIVER_ID))
                    },
                    Sending::Close => {
                        self.state.phase = Phase::Over;
                        Outcome { action: SessionAction::Exit, effects: no_effects() }
                    },
                    Sending::Ping => {
                        if !ok {
                            return self.channel_died();
                        }
                        self.state.phase = Phase::Up {
                            next_ping: instant_plus(now, self.config.ping_interval),
                        };
                        CastSessionActor::listen()
                    },
                    Sending::Plain => {
                        if !ok {
                            return self.channel_died();
                        }
                        self.state.phase = Phase::Up { next_ping: due };
                        CastSessionActor::listen()
                    },
                }
            },
            Phase::Greeting => {
                if !ok {
                    return self.channel_died();
                }
                self.on_greeted(now)
            },
            Phase::Asking => {
                if !ok {
                    return self.channel_died();
                }
                self.state.phase = Phase::AwaitStatus {
                    deadline: instant_plus(now, self.config.launch_timeout),
                };
                CastSessionActor::listen()
            },
            Phase::StatusPong { deadline } => {
                let until = *deadline;
                if !ok {
                    return self.channel_died();
                }
                self.state.phase = Phase::AwaitStatus { deadline: until };
                CastSessionActor::listen()
            },
            Phase::Resuming { app } => {
                let ours = app.clone();
                if !ok {
                    return self.channel_died();
                }
                self.state.phase = Phase::Up {
                    next_ping: instant_plus(now, self.config.ping_interval),
                };
                self.state.app = Some(ours);
                self.state.reload_due = None;
                self.drive_and_listen(LifecycleEvent::ProbeOk)
            },
            Phase::Launching => {
                if !ok {
                    return self.channel_died();
                }
                self.state.phase = Phase::AwaitApp {
                    deadline: instant_plus(now, self.config.launch_timeout),
                };
                CastSessionActor::listen()
            },
            Phase::LaunchPong { deadline } => {
                let until = *deadline;
                if !ok {
                    return self.channel_died();
                }
                self.state.phase = Phase::AwaitApp { deadline: until };
                CastSessionActor::listen()
            },
            Phase::Joining { app } => {
                let ours = app.clone();
                if !ok {
                    return self.channel_died();
                }
                let id = self.next_request_id();
                let frame = load_frame(id, ours.transport_id.as_str(), &self.media);
                self.state.phase = Phase::Loading { app: ours };
                CastSessionActor::send(frame)
            },
            Phase::Loading { app } => {
                let ours = app.clone();
                if !ok {
                    return self.channel_died();
                }
                self.state.phase = Phase::Up {
                    next_ping: instant_plus(now, self.config.ping_interval),
                };
                self.state.app = Some(ours);
                self.state.media_session_id = None;
                self.state.reload_due = None;
                self.state.mode = CastMode::Loading;
                self.drive_and_listen(LifecycleEvent::ProbeOk)
            },
            _ => CastSessionActor::ignore(),
        }
    }

    /// What runs after a blip.
    fn reconnect_triage(&mut self, apps: &Vec<ReceiverApplication>, now: u64) -> (r: Outcome)
        requires
            old(self)@.app is Some,
        ensures
            final(self).same_but_state(*old(self)),
            came_to(final(self)@, r) == triaged(old(self).cadence(), old(self)@, apps@, now),
    {
        let found = match &self.state.app {
            Some(app) => find_session(apps, app.session_id.as_str()),
            None => None,
        };
        let ghost ours = old(self)@.app->0.session_id@;
        match found {
            Some(i) => {
                proof {
                    assert(first_as(apps@, ours, i as int));
                    assert(apps@[i as int].session_id@ == ours);
                    assert(runs_as(apps@, ours));
                    lemma_first_as_unique(apps@, ours, place_as(apps@, ours), i as int);
                }
                let app = LaunchedApp {
                    session_id: apps[i].session_id.clone(),
                    transport_id: apps[i].transport_id.clone(),
                };
                let frame = connect_frame(apps[i].transport_id.as_str());
                self.state.phase = Phase::Resuming { app };
                return CastSessionActor::send(frame);
            },
            None => {},
        }
        if is_busy(apps) {
            self.state.phase = Phase::Up { next_ping: instant_plus(now, self.config.ping_interval) };
            let mut effects = no_effects();
            self.note_preempted(&mut effects);
            self.drive(LifecycleEvent::Reconnect, &mut effects);
            self.drive(LifecycleEvent::DeviceFault, &mut effects);
            assert(effects@ =~= triaged(old(self).cadence(), old(self)@, apps@, now).effects);
            return Outcome { action: SessionAction::Listen, effects };
        }
        self.state.app = None;
        self.state.media_session_id = None;
        self.launch()
    }

    /// A message came while we asked what runs.
    fn pump_for_receiver_status(&mut self, deadline: u64, msg: &InboundMessage, now: u64) -> (r:
        Outcome)
        requires
            old(self)@.app is Some,
        ensures
            final(self).same_but_state(*old(self)),
            came_to(final(self)@, r) == message_while_asking(
                old(self).cadence(),
                old(self)@,
                deadline,
                *msg,
                now,
            ),
    {
        match msg {
            InboundMessage::Ping => {
                self.state.phase = Phase::StatusPong { deadline };
                CastSessionActor::send(pong_frame())
            },
            InboundMessage::ReceiverStatus(info) => self.reconnect_triage(&info.applications, now),
            InboundMessage::CloseConnection => self.channel_died(),
            _ => CastSessionActor::listen(),
        }
    }

    /// A message came while the app was awaited.
    fn pump_for_app(&mut self, deadline: u64, msg: &InboundMessage) -> (r: Outcome)
        ensures
            final(self).same_but_state(*old(self)),
            came_to(final(self)@, r) == message_while_launching(old(self)@, deadline, *msg),
    {
        match msg {
            InboundMessage::Ping => {
                self.state.phase = Phase::LaunchPong { deadline };
                CastSessionActor::send(pong_frame())
            },
            InboundMessage::ReceiverStatus(info) => {
                let apps = &info.applications;
                match find_receiver(apps) {
                    Some(i) => {
                        proof {
                            assert(first_receiver(apps@, i as int));
                            let k = choose|k: int| first_receiver(apps@, k);
                            lemma_first_receiver_unique(apps@, k, i as int);
                        }
                        let app = LaunchedApp {
                            session_id: apps[i].session_id.clone(),
                            transport_id: apps[i].transport_id.clone(),
                        };
                        let frame = connect_frame(apps[i].transport_id.as_str());
                        self.state.phase = Phase::Joining { app };
                        CastSessionActor::send(frame)
                    },
                    None => CastSessionActor::listen(),
                }
            },
            InboundMessage::LaunchError { .. } => {
                self.state.phase = Phase::Down;
                self.state.app = None;
                let mut effects = no_effects();
                self.drive(LifecycleEvent::ProbeOk, &mut effects);
                self.drive(LifecycleEvent::DeviceFault, &mut effects);
                assert(effects@ =~= message_while_launching(old(self)@, deadline, *msg).effects);
                Outcome { action: SessionAction::Pause, effects }
            },
            InboundMessage::CloseConnection => self.channel_died(),
            _ => CastSessionActor::listen(),
        }
    }

    /// Load the rendition again after a while, unless that is already to
    /// happen.
    fn schedule_reload(&mut self, now: u64)
        ensures
            final(self).same_but_state(*old(self)),
            final(self)@ == (SessionState {
                reload_due: reload_scheduled(old(self).cadence(), old(self)@, now),
                ..old(self)@
            }),
    {
        if self.state.reload_due.is_none() {
            self.state.reload_due = Some(instant_plus(now, self.config.reload_delay));
        }
    }

    /// What the player of our media session does.
    fn handle_player_state(&mut self, player: PlayerState, now: u64) -> (r: Outcome)
        ensures
            final(self).same_but_state(*old(self)),
            came_to(final(self)@, r) == player_turn(old(self).cadence(), old(self)@, player, now),
    {
        self.state.mode = CastMode::Player(player);
        match player {
            PlayerState::Idle => {
                if !self.state.preempted {
                    self.schedule_reload(now);
                }
                self.drive_and_listen(LifecycleEvent::DeviceFault)
            },
            _ => {
                self.state.reload_due = None;
                self.drive_and_listen(LifecycleEvent::Recover)
            },
        }
    }

    /// The media sessions on a device that is ours.
    fn handle_media_status(&mut self, entries: &Vec<MediaStatusEntry>, now: u64) -> (r: Outcome)
        ensures
            final(self).same_but_state(*old(self)),
            came_to(final(self)@, r) == media_turn(
                old(self).cadence(),
                old(self)@,
                entries@,
                now,
            ),
    {
        if entries.len() == 0 {
            self.schedule_reload(now);
            self.state.media_session_id = None;
            self.state.mode = CastMode::NoMedia;
            return self.drive_and_listen(LifecycleEvent::DeviceFault);
        }
        if let Some(ours) = self.state.media_session_id {
            if let Some(i) = find_media(entries, ours) {
                proof {
                    assert(first_media(entries@, ours, i as int));
                    let k = choose|k: int| first_media(entries@, ours, k);
                    lemma_first_media_unique(entries@, ours, k, i as int);
                }
                return self.handle_player_state(entries[i].player_state, now);
            }
            if let Some(i) = find_active(entries) {
                assert(first_active(entries@, i as int));
                let mut effects = no_effects();
                self.note_preempted(&mut effects);
                self.drive(LifecycleEvent::DeviceFault, &mut effects);
                assert(effects@ =~= media_turn(
                    old(self).cadence(),
                    old(self)@,
                    entries@,
                    now,
                ).effects);
                return Outcome { action: SessionAction::Listen, effects };
            }
            return CastSessionActor::listen();
        }
        if let Some(i) = find_active(entries) {
            proof {
                assert(first_active(entries@, i as int));
                let k = choose|k: int| first_active(entries@, k);
                lemma_first_active_unique(entries@, k, i as int);
            }
            self.state.media_session_id = entries[i].media_session_id;
            let mut o = self.handle_player_state(entries[i].player_state, now);
            let ghost rest = o.effects@;
            o.effects.insert(0, SessionEffect::LoadAccepted);
            assert(o.effects@ =~= seq![SessionEffect::LoadAccepted] + rest);
            return o;
        }
        self.handle_player_state(entries[0].player_state, now)
    }

    /// A message came on the established channel.
    fn handle_inbound(&mut self, next_ping: u64, msg: &InboundMessage, now: u64) -> (r: Outcome)
        requires
            old(self)@.phase is Up,
        ensures
            final(self).same_but_state(*old(self)),
            came_to(final(self)@, r) == message_while_up(
                old(self).cadence(),
                old(self)@,
                next_ping,
                *msg,
                now,
            ),
    {
        match msg {
            InboundMessage::Ping => {
                self.state.phase = Phase::UpSending { what: Sending::Plain, next_ping };
                CastSessionActor::send(pong_frame())
            },
            InboundMessage::CloseConnection => self.channel_died(),
            InboundMessage::ReceiverStatus(info) => {
                let found = match &self.state.app {
                    None => {
                        return CastSessionActor::listen();
                    },
                    Some(app) => find_session(&info.applications, app.session_id.as_str()),
                };
                if let Some(i) = found {
                    assert(runs_as(info.applications@, old(self)@.app->0.session_id@)) by {
                        assert(info.applications@[i as int].session_id@
                            == old(self)@.app->0.session_id@);
                    }
                    return CastSessionActor::listen();
                }
                if is_busy(&info.applications) {
                    let mut effects = no_effects();
                    self.note_preempted(&mut effects);
                    self.drive(LifecycleEvent::DeviceFault, &mut effects);
                    assert(effects@ =~= message_while_up(
                        old(self).cadence(),
                        old(self)@,
                        next_ping,
                        *msg,
                        now,
                    ).effects);
                    return Outcome { action: SessionAction::Listen, effects };
                }
                self.state.phase = Phase::Down;
                self.state.app = None;
                self.state.media_session_id = None;
                self.state.reload_due = None;
                self.state.mode = CastMode::Relaunching;
                let mut effects = no_effects();
                self.drive(LifecycleEvent::DeviceFault, &mut effects);
                assert(effects@ =~= message_while_up(
                    old(self).cadence(),
                    old(self)@,
                    next_ping,
                    *msg,
                    now,
                ).effects);
                Outcome { action: SessionAction::Pause, effects }
            },
            InboundMessage::MediaStatus(entries) => {
                if !self.state.preempted && self.state.app.is_some() {
                    self.handle_media_status(entries, now)
                } else {
                    CastSessionActor::listen()
                }
            },
            InboundMessage::LoadError { .. } => {
                if !self.state.preempted && self.state.app.is_some() {
                    self.schedule_reload(now);
                    self.state.media_session_id = None;
                    self.state.mode = CastMode::LoadFailed;
                    self.drive_and_listen(LifecycleEvent::DeviceFault)
                } else {
                    CastSessionActor::listen()
                }
            },
            InboundMessage::LaunchError { .. } => self.drive_and_listen(
                LifecycleEvent::DeviceFault,
            ),
            _ => CastSessionActor::listen(),
        }
    }

    /// A message came.
    fn on_message(&mut self, msg: &InboundMessage, now: u64) -> (r: Outcome)
        requires
            session_wf(old(self)@),
        ensures
            final(self).same_but_state(*old(self)),
            came_to(final(self)@, r) == after_message(old(self).cadence(), old(self)@, *msg, now),
    {
        match &self.state.phase {
            Phase::AwaitStatus { deadline } => {
                let until = *deadline;
                self.state.last_inbound = now;
                self.pump_for_receiver_status(until, msg, now)
            },
            Phase::AwaitApp { deadline } => {
                let until = *deadline;
                self.state.last_inbound = now;
                self.pump_for_app(until, msg)
            },
            Phase::Up { next_ping } => {
                let due = *next_ping;
                self.state.last_inbound = now;
                self.handle_inbound(due, msg, now)
            },
            _ => CastSessionActor::ignore(),
        }
    }

    /// The next ping is due.
    fn on_ping_due(&mut self, now: u64) -> (r: Outcome)
        ensures
            final(self).same_but_state(*old(self)),
            came_to(final(self)@, r) == after_ping_due(old(self).cadence(), old(self)@, now),
    {
        match &self.state.phase {
            Phase::Up { next_ping } => {
                let due = *next_ping;
                let silent: u64 = if now >= self.state.last_inbound {
                    now - self.state.last_inbound
                } else {
                    0
                };
                if silent as u128 >= self.config.pong_timeout.as_nanos() {
                    return self.channel_died();
                }
                self.state.phase = Phase::UpSending { what: Sending::Ping, next_ping: due };
                CastSessionActor::send(ping_frame())
            },
            _ => CastSessionActor::ignore(),
        }
    }

    /// The rendition is to be loaded again.
    fn reload(&mut self) -> (r: Outcome)
        ensures
            final(self).same_but_state(*old(self)),
            came_to(final(self)@, r) == after_reload_due(old(self).plays(), old(self)@),
    {
        match &self.state.phase {
            Phase::Up { next_ping } => {
                let due = *next_ping;
                self.state.reload_due = None;
                let transport = match &self.state.app {
                    None => {
                        return CastSessionActor::listen();
                    },
                    Some(app) => app.transport_id.clone(),
                };
                let id = self.next_request_id();
                self.state.media_session_id = None;
                self.state.phase = Phase::UpSending { what: Sending::Plain, next_ping: due };
                CastSessionActor::send(load_frame(id, transport.as_str(), &self.media))
            },
            _ => CastSessionActor::ignore(),
        }
    }

    /// Nothing changed.
    fn carry_on(&self) -> (r: Outcome)
        ensures
            came_to(self@, r) == unchanged(self@),
    {
        match &self.state.phase {
            Phase::Up { .. } => CastSessionActor::listen(),
            _ => Outcome { action: SessionAction::Pause, effects: no_effects() },
        }
    }

    /// An operator's command.
    fn handle_control(&mut self, command: &PollerControl) -> (r: Outcome)
        ensures
            final(self).same_but_state(*old(self)),
            came_to(final(self)@, r) == after_control(old(self)@, *command),
    {
        if !self.takes_control() {
            return CastSessionActor::ignore();
        }
        match command {
            PollerControl::SetVolume { percent } => {
                let id = self.next_request_id();
                let due = match &self.state.phase {
                    Phase::Up { next_ping } => *next_ping,
                    _ => {
                        return self.carry_on();
                    },
                };
                self.state.phase = Phase::UpSending { what: Sending::Plain, next_ping: due };
                CastSessionActor::send(set_volume_frame(id, *percent))
            },
            PollerControl::StopCast => {
                let id = self.next_request_id();
                let session = match &self.state.app {
                    Some(app) => Some(app.session_id.clone()),
                    None => None,
                };
                match (&self.state.phase, session) {
                    (Phase::Up { next_ping }, Some(session_id)) => {
                        let due = *next_ping;
                        self.state.phase = Phase::UpSending { what: Sending::Stop, next_ping: due };
                        CastSessionActor::send(stop_frame(id, session_id.as_str()))
                    },
                    _ => {
                        self.state.phase = Phase::Over;
                        Outcome { action: SessionAction::Exit, effects: no_effects() }
                    },
                }
            },
            _ => self.carry_on(),
        }
    }

    /// Take an event.
    pub fn on_event(&mut self, event: &SessionEvent, now: u64) -> (r: Outcome)
        requires
            session_wf(old(self)@),
        ensures
            session_wf(final(self)@),
            final(self).same_but_state(*old(self)),
            came_to(final(self)@, r) == turn(
                old(self).cadence(),
                old(self).plays(),
                old(self)@,
                *event,
                now,
            ),
    {
        proof {
            law_session_stays_well_formed(
                old(self).cadence(),
                old(self).plays(),
                old(self)@,
                *event,
                now,
            );
        }
        match event {
            SessionEvent::Start => match &self.state.phase {
                Phase::Down => {
                    self.state.phase = Phase::Dialing;
                    Outcome { action: SessionAction::Dial, effects: no_effects() }
                },
                _ => CastSessionActor::ignore(),
            },
            SessionEvent::Dialed(ok) => match &self.state.phase {
                Phase::Dialing => {
                    if !*ok {
                        return self.channel_died();
                    }
                    self.state.phase = Phase::Greeting;
                    self.state.last_inbound = now;
                    CastSessionActor::send(connect_frame(PLATFORM_RECEIVER_ID))
                },
                _ => CastSessionActor::ignore(),
            },
            SessionEvent::Sent(ok) => self.on_sent(*ok, now),
            SessionEvent::Message(msg) => self.on_message(msg, now),
            SessionEvent::ReceiveFailed => match &self.state.phase {
                Phase::AwaitStatus { .. } => self.channel_died(),
                Phase::AwaitApp { .. } => self.channel_died(),
                Phase::Up { .. } => self.channel_died(),
                _ => CastSessionActor::ignore(),
            },
            SessionEvent::TimedOut => match &self.state.phase {
                Phase::AwaitStatus { .. } => self.channel_died(),
                Phase::AwaitApp { .. } => self.channel_died(),
                _ => CastSessionActor::ignore(),
            },
            SessionEvent::PingDue => self.on_ping_due(now),
            SessionEvent::ReloadDue => self.reload(),
            SessionEvent::Control(command) => self.handle_control(command),
        }
    }

    /// Take a message off the channel.
    pub fn on_frame(&mut self, frame: &CastFrame, now: u64) -> (r: Outcome)
        requires
            session_wf(old(self)@),
        ensures
            session_wf(final(self)@),
            final(self).same_but_state(*old(self)),
            exists|msg: InboundMessage|
                msg@ == crate::devices::cast::protocol::decoded(frame@) && came_to(
                    final(self)@,
                    r,
                ) == #[trigger] turn(
                    old(self).cadence(),
                    old(self).plays(),
                    old(self)@,
                    SessionEvent::Message(msg),
                    now,
                ),
    {
        let msg = decode(frame);
        let ghost m = msg;
        let event = SessionEvent::Message(msg);
        let r = self.on_event(&event, now);
        assert(came_to(self@, r) == turn(
            old(self).cadence(),
            old(self).plays(),
            old(self)@,
            SessionEvent::Message(m),
            now,
        ));
        r
    }

    /// Tell the control plane. Answers whether the receiver took the rendition.
    pub fn publish(&self, effects: &Vec<SessionEffect>, broadcaster: &mut DeviceBroadcaster) -> (r:
        bool)
        requires
            old(broadcaster).wf(),
        ensures
            final(broadcaster).wf(),
            final(broadcaster).published() == old(broadcaster).published() + effect_events(
                self.device(),
                effects@,
            ),
            final(broadcaster).statuses() == effect_statuses(
                self.device(),
                old(broadcaster).statuses(),
                effects@,
            ),
            r == effects@.contains(SessionEffect::LoadAccepted),
    {
        let mut accepted = false;
        let mut i: usize = 0;
        let ghost before = broadcaster.published();
        let ghost first = broadcaster.statuses();
        let ghost es = effects@;
        assert(es.take(0) =~= Seq::<SessionEffect>::empty());
        assert(before + effect_events(self.device(), es.take(0)) =~= before);
        while i < effects.len()
            invariant
                i <= effects.len(),
                es == effects@,
                broadcaster.wf(),
                broadcaster.published() == before + effect_events(self.device(), es.take(i as int)),
                broadcaster.statuses() == effect_statuses(
                    self.device(),
                    first,
                    es.take(i as int),
                ),
                accepted == es.take(i as int).contains(SessionEffect::LoadAccepted),
            decreases effects.len() - i,
        {
            let ghost done = broadcaster.published();
            proof {
                let next = es.take(i + 1);
                assert(next.drop_last() =~= es.take(i as int));
                assert(next.last() == es[i as int]);
                if es.take(i as int).contains(SessionEffect::LoadAccepted) {
                    let k = choose|k: int|
                        0 <= k < i && es.take(i as int)[k] == SessionEffect::LoadAccepted;
                    assert(next[k] == SessionEffect::LoadAccepted);
                }
                if es[i as int] == SessionEffect::LoadAccepted {
                    assert(next[i as int] == SessionEffect::LoadAccepted);
                }
                if next.contains(SessionEffect::LoadAccepted) && es[i as int]
                    != SessionEffect::LoadAccepted {
                    let k = choose|k: int|
                        0 <= k < next.len() && next[k] == SessionEffect::LoadAccepted;
                    assert(es.take(i as int)[k] == SessionEffect::LoadAccepted);
                }
            }
            match effects[i] {
                SessionEffect::Status { state, mode } => {
                    let status = DeviceStatus {
                        device_id: self.device_id.clone(),
                        state,
                        mode: Some(mode.token().to_owned()),
                        capabilities: Some(
                            DeviceCapabilities {
                                encode: false,
                                decode: true,
                                display: true,
                                sync: AchievedSync { rank: 0 },
                                audio: true,
                                reboot: false,
                                firmware_update: false,
                            },
                        ),
                    };
                    broadcaster.publish_status(status);
                },
                SessionEffect::Preempted => {
                    broadcaster.error(
                        self.device_id.as_str(),
                        "cast session preempted by another sender; restart the session to reclaim the device",
                    );
                },
                SessionEffect::LoadAccepted => {
                    accepted = true;
                },
            }
            proof {
                assert(broadcaster.published() =~= done + effect_event(
                    self.device(),
                    es[i as int],
                ));
                assert(broadcaster.published() =~= before + effect_events(
                    self.device(),
                    es.take(i + 1),
                ));
            }
            i += 1;
        }
        assert(es.take(i as int) =~= es);
        accepted
    }

    /// The latest status that was published for this session.
    pub fn published_status(&self, broadcaster: &DeviceBroadcaster) -> (r: Option<DeviceStatus>)
        requires
            broadcaster.wf(),
        ensures
            match r {
                Some(s) => broadcaster.statuses().contains_key(self.device()) && s@
                    == broadcaster.statuses()[self.device()],
                None => !broadcaster.statuses().contains_key(self.device()),
            },
    {
        broadcaster.registry().snapshot(self.device_id.as_str())
    }
}

// ---- Laws --------------------------------------------------------------------

/// A session that another sender interrupted claims nothing and is doing
/// nothing to the media; one that asks what runs has something to ask for.
pub open spec fn session_wf(s: SessionState) -> bool {
    &&& s.preempted ==> {
        &&& s.app is None
        &&& s.media_session_id is None
        &&& s.reload_due is None
        &&& s.phase is Down || s.phase is Dialing || s.phase is Greeting || s.phase is Up
            || s.phase is UpSending || s.phase is Over
    }
    &&& (s.phase is Asking || s.phase is AwaitStatus || s.phase is StatusPong) ==> s.app is Some
}

/// What holds of a session keeps holding, whatever happens.
pub proof fn law_session_stays_well_formed(
    config: CastSessionConfig,
    media: CastMediaTarget,
    s: SessionState,
    event: SessionEvent,
    now: u64,
)
    requires
        session_wf(s),
    ensures
        session_wf(turn(config, media, s, event, now).state),
{
}

/// A message that leaves the media of a device alone.
pub open spec fn hands_off(f: crate::devices::cast::protocol::FrameView) -> bool {
    ||| f == crate::devices::cast::protocol::connect_view(PLATFORM_RECEIVER_ID@)
    ||| f == crate::devices::cast::protocol::close_view(PLATFORM_RECEIVER_ID@)
    ||| f == crate::devices::cast::protocol::ping_view()
    ||| f == crate::devices::cast::protocol::pong_view()
    ||| exists|id: u32, percent: u8|
        f == #[trigger] crate::devices::cast::protocol::set_volume_view(id, percent)
}

/// A preemption is never fought: whatever happens, the session stays preempted
/// and sends nothing that launches, joins, loads or stops an app.
pub proof fn law_preemption_is_never_fought(
    config: CastSessionConfig,
    media: CastMediaTarget,
    s: SessionState,
    event: SessionEvent,
    now: u64,
)
    requires
        session_wf(s),
        s.preempted,
    ensures
        ({
            let t = turn(config, media, s, event, now);
            &&& t.state.preempted
            &&& t.state.app is None
            &&& t.action matches ActionView::Send(f) ==> hands_off(f)
        }),
{
}

/// What a receiver says while another sender has the device is not held for
/// ours: only the sign of life counts.
pub proof fn law_foreign_media_is_not_ours(
    config: CastSessionConfig,
    s: SessionState,
    msg: InboundMessage,
    now: u64,
)
    requires
        session_wf(s),
        s.preempted,
        s.phase is Up,
        msg is MediaStatus || msg is ReceiverStatus || msg is LoadError,
    ensures
        after_message(config, s, msg, now) == listening(SessionState { last_inbound: now, ..s }),
{
}

/// A session that survived a blip is taken up again as it is: the app is joined,
/// and neither it nor its media is started anew.
pub proof fn law_surviving_session_is_resumed(
    config: CastSessionConfig,
    media: CastMediaTarget,
    s: SessionState,
    info: crate::devices::cast::protocol::ReceiverStatusInfo,
    now: u64,
    later: u64,
)
    requires
        session_wf(s),
        s.phase is AwaitStatus,
        runs_as(info.applications@, s.app->0.session_id@),
    ensures
        ({
            let asked = turn(
                config,
                media,
                s,
                SessionEvent::Message(InboundMessage::ReceiverStatus(info)),
                now,
            );
            let joined = turn(config, media, asked.state, SessionEvent::Sent(true), later);
            &&& asked.state.phase is Resuming
            &&& asked.action == ActionView::Send(
                crate::devices::cast::protocol::connect_view(
                    asked.state.phase->Resuming_app.transport_id@,
                ),
            )
            &&& joined.state.phase is Up
            &&& joined.action == ActionView::Listen
            &&& joined.state.app is Some
            &&& joined.state.app->0.session_id@ == s.app->0.session_id@
            &&& joined.state.media_session_id == s.media_session_id
            &&& joined.state.mode == s.mode
            &&& joined.state.request_id == s.request_id
        }),
{
    let apps = info.applications@;
    let ours = s.app->0.session_id@;
    let w = choose|i: int| 0 <= i < apps.len() && (#[trigger] apps[i]).session_id@ == ours;
    lemma_first_exists(apps, ours, w);
    let i = place_as(apps, ours);
    assert(first_as(apps, ours, i));
}

/// Where a session runs, it has a first row.
proof fn lemma_first_exists(apps: Seq<ReceiverApplication>, session_id: Seq<char>, w: int)
    requires
        0 <= w < apps.len(),
        apps[w].session_id@ == session_id,
    ensures
        exists|i: int| first_as(apps, session_id, i),
    decreases w,
{
    if forall|j: int| 0 <= j < w ==> (#[trigger] apps[j]).session_id@ != session_id {
        assert(first_as(apps, session_id, w));
    } else {
        let j = choose|j: int| 0 <= j < w && (#[trigger] apps[j]).session_id@ == session_id;
        lemma_first_exists(apps, session_id, j);
    }
}

/// A channel that stayed silent too long is dead at the next ping, and a dead
/// channel costs the session neither its app nor its media session.
pub proof fn law_silent_channel_dies(
    config: CastSessionConfig,
    media: CastMediaTarget,
    s: SessionState,
    now: u64,
)
    requires
        s.phase is Up,
        silence(s, now) >= config.pong_timeout@,
    ensures
        ({
            let t = turn(config, media, s, SessionEvent::PingDue, now);
            &&& t.state.phase is Down
            &&& t.action == ActionView::Pause
            &&& t.state.app == s.app
            &&& t.state.media_session_id == s.media_session_id
            &&& t.state.preempted == s.preempted
            &&& s.lifecycle == DeviceState::Online ==> t.state.lifecycle
                == DeviceState::Unreachable
        }),
{
}

/// A reload is never immediate: whenever one comes to be due, it is due a whole
/// reload delay later, and loading again clears it.
pub proof fn law_reload_is_delayed(
    config: CastSessionConfig,
    media: CastMediaTarget,
    s: SessionState,
    event: SessionEvent,
    now: u64,
)
    ensures
        ({
            let t = turn(config, media, s, event, now);
            s.reload_due is None && t.state.reload_due is Some ==> t.state.reload_due == Some(
                instant_after(now, config.reload_delay),
            )
        }),
        s.phase is Up ==> turn(
            config,
            media,
            s,
            SessionEvent::ReloadDue,
            now,
        ).state.reload_due is None,
{
}

/// Whenever the state of the device changes, its new status is the last thing
/// that the control plane is told.
pub proof fn law_state_changes_are_published(
    config: CastSessionConfig,
    media: CastMediaTarget,
    s: SessionState,
    event: SessionEvent,
    now: u64,
)
    ensures
        ({
            let t = turn(config, media, s, event, now);
            t.state.lifecycle != s.lifecycle || t.state.mode != s.mode ==> t.effects.len() > 0
                && t.effects.last() == status_of(t.state)
        }),
{
}

/// The receiver is said to have taken the rendition exactly when a media
/// session with something to play is first held for ours.
pub proof fn law_load_is_accepted_once_media_is_adopted(
    config: CastSessionConfig,
    media: CastMediaTarget,
    s: SessionState,
    event: SessionEvent,
    now: u64,
)
    requires
        session_wf(s),
    ensures
        turn(config, media, s, event, now).effects.contains(SessionEffect::LoadAccepted) <==> {
            &&& s.phase is Up
            &&& s.app is Some
            &&& s.media_session_id is None
            &&& event is Message
            &&& event->Message_0 is MediaStatus
            &&& exists|i: int| first_active(event->Message_0->MediaStatus_0@, i)
        },
{
    let t = turn(config, media, s, event, now);
    if s.phase is Up && s.app is Some && s.media_session_id is None && event is Message
        && event->Message_0 is MediaStatus && exists|i: int|
        first_active(event->Message_0->MediaStatus_0@, i) {
        assert(t.effects[0] == SessionEffect::LoadAccepted);
    }
}

/// An app that went away while nothing took its place is no preemption: the
/// session lets go of it and starts it anew.
pub proof fn law_lost_app_is_started_again(
    config: CastSessionConfig,
    media: CastMediaTarget,
    s: SessionState,
    info: crate::devices::cast::protocol::ReceiverStatusInfo,
    now: u64,
)
    requires
        session_wf(s),
        s.phase is Up || s.phase is AwaitStatus,
        s.app is Some,
        !runs_as(info.applications@, s.app->0.session_id@),
        !busy(info.applications@),
    ensures
        ({
            let t = turn(
                config,
                media,
                s,
                SessionEvent::Message(InboundMessage::ReceiverStatus(info)),
                now,
            );
            &&& !t.state.preempted
            &&& t.state.app is None
            &&& t.state.media_session_id is None
            &&& s.phase is AwaitStatus ==> t.action == ActionView::Send(
                crate::devices::cast::protocol::launch_view(
                    following(s.request_id),
                    DEFAULT_MEDIA_RECEIVER_APP_ID@,
                ),
            )
            &&& s.phase is Up ==> {
                &&& t.action == ActionView::Pause
                &&& turn(config, media, t.state, SessionEvent::Start, now).action
                    == ActionView::Dial
            }
        }),
{
}

/// A preemption goes by the session: where ours is gone and another app runs,
/// be it the same receiver app, the device is left to the other sender and the
/// operator is told.
pub proof fn law_other_session_preempts(
    config: CastSessionConfig,
    media: CastMediaTarget,
    s: SessionState,
    info: crate::devices::cast::protocol::ReceiverStatusInfo,
    now: u64,
)
    requires
        session_wf(s),
        s.phase is Up || s.phase is AwaitStatus,
        s.app is Some,
        !runs_as(info.applications@, s.app->0.session_id@),
        busy(info.applications@),
    ensures
        ({
            let t = turn(
                config,
                media,
                s,
                SessionEvent::Message(InboundMessage::ReceiverStatus(info)),
                now,
            );
            &&& t.state.preempted
            &&& t.state.app is None
            &&& t.action == ActionView::Listen
            &&& t.effects.contains(SessionEffect::Preempted)
        }),
{
    let t = turn(
        config,
        media,
        s,
        SessionEvent::Message(InboundMessage::ReceiverStatus(info)),
        now,
    );
    assert(t.effects[0] == SessionEffect::Preempted);
}

/// The session after some events, each at its instant.
#[verifier::opaque]
pub open spec fn after_events(
    config: CastSessionConfig,
    media: CastMediaTarget,
    s: SessionState,
    events: Seq<(SessionEvent, u64)>,
) -> SessionState
    decreases events.len(),
{
    if events.len() == 0 {
        s
    } else {
        let before = after_events(config, media, s, events.drop_last());
        turn(config, media, before, events.last().0, events.last().1).state
    }
}

/// What is sent over some events, in order.
#[verifier::opaque]
pub open spec fn sent_over(
    config: CastSessionConfig,
    media: CastMediaTarget,
    s: SessionState,
    events: Seq<(SessionEvent, u64)>,
) -> Seq<crate::devices::cast::protocol::FrameView>
    decreases events.len(),
{
    if events.len() == 0 {
        Seq::empty()
    } else {
        let fore = events.drop_last();
        let before = after_events(config, media, s, fore);
        let sent = sent_over(config, media, s, fore);
        match turn(config, media, before, events.last().0, events.last().1).action {
            ActionView::Send(frame) => sent.push(frame),
            _ => sent,
        }
    }
}

/// Events follow on each other.
proof fn lemma_events_follow_on(
    config: CastSessionConfig,
    media: CastMediaTarget,
    s: SessionState,
    first: Seq<(SessionEvent, u64)>,
    then_came: Seq<(SessionEvent, u64)>,
)
    ensures
        after_events(config, media, s, first + then_came) == after_events(
            config,
            media,
            after_events(config, media, s, first),
            then_came,
        ),
        sent_over(config, media, s, first + then_came) == sent_over(config, media, s, first)
            + sent_over(config, media, after_events(config, media, s, first), then_came),
    decreases then_came.len(),
{
    reveal_with_fuel(after_events, 2);
    reveal_with_fuel(sent_over, 2);
    let all = first + then_came;
    let mid = after_events(config, media, s, first);
    if then_came.len() == 0 {
        assert(all =~= first);
        assert(sent_over(config, media, s, first) + sent_over(config, media, mid, then_came)
            =~= sent_over(config, media, s, first));
    } else {
        let fore = then_came.drop_last();
        assert(all.drop_last() =~= first + fore);
        assert(all.last() == then_came.last());
        lemma_events_follow_on(config, media, s, first, fore);
        assert(sent_over(config, media, s, all) =~= sent_over(config, media, s, first) + sent_over(
            config,
            media,
            mid,
            then_came,
        ));
    }
}

/// A sign of life of the receiver: a ping, which is answered at the second
/// instant, or a pong.
pub struct Beat {
    /// Whether it is a ping.
    pub ping: bool,
    /// When it came.
    pub at: u64,
    /// When the answer to a ping was sent.
    pub answered: u64,
}

/// The events of some signs of life.
pub open spec fn beat_events(beats: Seq<Beat>) -> Seq<(SessionEvent, u64)>
    decreases beats.len(),
{
    if beats.len() == 0 {
        Seq::empty()
    } else {
        let b = beats.last();
        beat_events(beats.drop_last()) + if b.ping {
            seq![
                (SessionEvent::Message(InboundMessage::Ping), b.at),
                (SessionEvent::Sent(true), b.answered),
            ]
        } else {
            seq![(SessionEvent::Message(InboundMessage::Pong), b.at)]
        }
    }
}

/// One answer for each ping.
pub open spec fn pongs(beats: Seq<Beat>) -> Seq<crate::devices::cast::protocol::FrameView>
    decreases beats.len(),
{
    if beats.len() == 0 {
        Seq::empty()
    } else if beats.last().ping {
        pongs(beats.drop_last()).push(crate::devices::cast::protocol::pong_view())
    } else {
        pongs(beats.drop_last())
    }
}

/// One event.
proof fn lemma_one_event(
    config: CastSessionConfig,
    media: CastMediaTarget,
    s: SessionState,
    event: SessionEvent,
    now: u64,
)
    ensures
        after_events(config, media, s, seq![(event, now)]) == turn(config, media, s, event, now).state,
        sent_over(config, media, s, seq![(event, now)]) == (match turn(
            config,
            media,
            s,
            event,
            now,
        ).action {
            ActionView::Send(frame) => seq![frame],
            _ => Seq::empty(),
        }),
{
    reveal_with_fuel(after_events, 2);
    reveal_with_fuel(sent_over, 2);
    let one = seq![(event, now)];
    assert(one.drop_last() =~= Seq::<(SessionEvent, u64)>::empty());
    assert(after_events(config, media, s, one.drop_last()) == s);
    assert(sent_over(config, media, s, one.drop_last()) =~= Seq::<
        crate::devices::cast::protocol::FrameView,
    >::empty());
    assert(one.last() == (event, now));
}

/// Two events.
proof fn lemma_two_events(
    config: CastSessionConfig,
    media: CastMediaTarget,
    s: SessionState,
    first: (SessionEvent, u64),
    second: (SessionEvent, u64),
)
    ensures
        ({
            let one = turn(config, media, s, first.0, first.1);
            let two = turn(config, media, one.state, second.0, second.1);
            &&& after_events(config, media, s, seq![first, second]) == two.state
            &&& sent_over(config, media, s, seq![first, second]) == (match one.action {
                ActionView::Send(frame) => seq![frame],
                _ => Seq::empty(),
            }) + (match two.action {
                ActionView::Send(frame) => seq![frame],
                _ => Seq::empty(),
            })
        }),
{
    let one = turn(config, media, s, first.0, first.1);
    lemma_one_event(config, media, s, first.0, first.1);
    lemma_one_event(config, media, one.state, second.0, second.1);
    lemma_events_follow_on(config, media, s, seq![first], seq![second]);
    assert(seq![first] + seq![second] =~= seq![first, second]);
}

/// A ping that comes while we ask what runs is answered.
proof fn lemma_ping(
    config: CastSessionConfig,
    media: CastMediaTarget,
    s: SessionState,
    at: u64,
    answered: u64,
)
    requires
        s.phase is AwaitStatus,
    ensures
        ({
            let events = seq![
                (SessionEvent::Message(InboundMessage::Ping), at),
                (SessionEvent::Sent(true), answered),
            ];
            &&& after_events(config, media, s, events) == (SessionState { last_inbound: at, ..s })
            &&& sent_over(config, media, s, events) == seq![
                crate::devices::cast::protocol::pong_view(),
            ]
        }),
{
    let came = (SessionEvent::Message(InboundMessage::Ping), at);
    let sent = (SessionEvent::Sent(true), answered);
    lemma_two_events(config, media, s, came, sent);
    assert(sent_over(config, media, s, seq![came, sent]) =~= seq![
        crate::devices::cast::protocol::pong_view(),
    ]);
}

/// A pong that comes while we ask what runs is heard.
proof fn lemma_pong(config: CastSessionConfig, media: CastMediaTarget, s: SessionState, at: u64)
    requires
        s.phase is AwaitStatus,
    ensures
        ({
            let events = seq![(SessionEvent::Message(InboundMessage::Pong), at)];
            &&& after_events(config, media, s, events) == (SessionState { last_inbound: at, ..s })
            &&& sent_over(config, media, s, events) == Seq::<
                crate::devices::cast::protocol::FrameView,
            >::empty()
        }),
{
    lemma_one_event(config, media, s, SessionEvent::Message(InboundMessage::Pong), at);
}

/// While we ask what runs, every ping is answered and nothing else is sent, and
/// only when the channel was last heard changes.
proof fn lemma_beats(
    config: CastSessionConfig,
    media: CastMediaTarget,
    s: SessionState,
    beats: Seq<Beat>,
)
    requires
        s.phase is AwaitStatus,
    ensures
        ({
            let after = after_events(config, media, s, beat_events(beats));
            after == (SessionState { last_inbound: after.last_inbound, ..s })
        }),
        sent_over(config, media, s, beat_events(beats)) == pongs(beats),
    decreases beats.len(),
{
    if beats.len() == 0 {
        lemma_no_events(config, media, s);
    } else {
        let fore = beats.drop_last();
        let b = beats.last();
        lemma_beats(config, media, s, fore);
        let mid = after_events(config, media, s, beat_events(fore));
        if b.ping {
            let came = (SessionEvent::Message(InboundMessage::Ping), b.at);
            let sent = (SessionEvent::Sent(true), b.answered);
            lemma_events_follow_on(config, media, s, beat_events(fore), seq![came, sent]);
            lemma_ping(config, media, mid, b.at, b.answered);
            let pong = crate::devices::cast::protocol::pong_view();
            assert(pongs(fore) + seq![pong] =~= pongs(beats));
        } else {
            let came = (SessionEvent::Message(InboundMessage::Pong), b.at);
            lemma_events_follow_on(config, media, s, beat_events(fore), seq![came]);
            lemma_pong(config, media, mid, b.at);
            assert(pongs(fore) + Seq::<crate::devices::cast::protocol::FrameView>::empty()
                =~= pongs(beats));
        }
    }
}

/// Without an event nothing happens.
proof fn lemma_no_events(config: CastSessionConfig, media: CastMediaTarget, s: SessionState)
    ensures
        after_events(config, media, s, Seq::empty()) == s,
        sent_over(config, media, s, Seq::empty()) == Seq::<
            crate::devices::cast::protocol::FrameView,
        >::empty(),
{
    reveal_with_fuel(after_events, 1);
    reveal_with_fuel(sent_over, 1);
}

/// A session whose channel died asks what runs once it has a channel again.
proof fn lemma_reconnect_asks(
    config: CastSessionConfig,
    media: CastMediaTarget,
    s: SessionState,
    start: u64,
    dialed: u64,
    greeted_at: u64,
    asked: u64,
)
    requires
        s.phase is Down,
        !s.preempted,
        s.app is Some,
    ensures
        ({
            let dial = seq![(SessionEvent::Start, start), (SessionEvent::Dialed(true), dialed)];
            let ask = seq![
                (SessionEvent::Sent(true), greeted_at),
                (SessionEvent::Sent(true), asked),
            ];
            let after = after_events(config, media, s, dial + ask);
            &&& after.phase is AwaitStatus
            &&& after.lifecycle == s.lifecycle
            &&& after.app == s.app
            &&& after.media_session_id == s.media_session_id
            &&& after.mode == s.mode
            &&& !after.preempted
            &&& sent_over(config, media, s, dial + ask) == seq![
                crate::devices::cast::protocol::connect_view(PLATFORM_RECEIVER_ID@),
                crate::devices::cast::protocol::get_status_view(following(s.request_id)),
            ]
        }),
{
    let dial = seq![(SessionEvent::Start, start), (SessionEvent::Dialed(true), dialed)];
    let ask = seq![(SessionEvent::Sent(true), greeted_at), (SessionEvent::Sent(true), asked)];
    let hello = crate::devices::cast::protocol::connect_view(PLATFORM_RECEIVER_ID@);
    let question = crate::devices::cast::protocol::get_status_view(following(s.request_id));
    lemma_two_events(config, media, s, dial[0], dial[1]);
    let open = after_events(config, media, s, dial);
    assert(open == (SessionState { phase: Phase::Greeting, last_inbound: dialed, ..s }));
    assert(sent_over(config, media, s, dial) =~= seq![hello]);
    lemma_two_events(config, media, open, ask[0], ask[1]);
    assert(sent_over(config, media, open, ask) =~= seq![question]);
    lemma_events_follow_on(config, media, s, dial, ask);
    assert(seq![hello] + seq![question] =~= seq![hello, question]);
}

/// Where our session still runs, the app is greeted and the session is up.
proof fn lemma_survivor_is_joined(
    config: CastSessionConfig,
    media: CastMediaTarget,
    s: SessionState,
    info: crate::devices::cast::protocol::ReceiverStatusInfo,
    told: u64,
    joined: u64,
)
    requires
        s.phase is AwaitStatus,
        s.app is Some,
        runs_as(info.applications@, s.app->0.session_id@),
    ensures
        ({
            let join = seq![
                (SessionEvent::Message(InboundMessage::ReceiverStatus(info)), told),
                (SessionEvent::Sent(true), joined),
            ];
            let after = after_events(config, media, s, join);
            let app = info.applications@[place_as(info.applications@, s.app->0.session_id@)];
            &&& after.phase is Up
            &&& after.lifecycle == crate::devices::state_machine::next_state(
                s.lifecycle,
                LifecycleEvent::ProbeOk,
            )
            &&& after.app == Some(app_in(app))
            &&& after.media_session_id == s.media_session_id
            &&& after.mode == s.mode
            &&& after.preempted == s.preempted
            &&& sent_over(config, media, s, join) == seq![
                crate::devices::cast::protocol::connect_view(app.transport_id@),
            ]
        }),
{
    let came = (SessionEvent::Message(InboundMessage::ReceiverStatus(info)), told);
    let sent = (SessionEvent::Sent(true), joined);
    let app = info.applications@[place_as(info.applications@, s.app->0.session_id@)];
    lemma_two_events(config, media, s, came, sent);
    assert(sent_over(config, media, s, seq![came, sent]) =~= seq![
        crate::devices::cast::protocol::connect_view(app.transport_id@),
    ]);
}

/// The events of a reconnect whose every message is sent: the channel is opened,
/// the receiver gives signs of life, and then it says what runs.
pub open spec fn reconnect_events(
    start: u64,
    dialed: u64,
    greeted_at: u64,
    asked: u64,
    beats: Seq<Beat>,
    info: crate::devices::cast::protocol::ReceiverStatusInfo,
    told: u64,
    joined: u64,
) -> Seq<(SessionEvent, u64)> {
    seq![(SessionEvent::Start, start), (SessionEvent::Dialed(true), dialed)] + seq![
        (SessionEvent::Sent(true), greeted_at),
        (SessionEvent::Sent(true), asked),
    ] + beat_events(beats) + seq![
        (SessionEvent::Message(InboundMessage::ReceiverStatus(info)), told),
        (SessionEvent::Sent(true), joined),
    ]
}

/// Over a whole reconnect to a receiver that still runs our session, what is
/// sent is the greeting, the question what runs, one answer to each ping, and
/// the greeting of the app. Neither the app nor its media is started anew, and
/// the device is online again with the session, its media and what it shows as
/// they were.
pub proof fn law_reconnect_leaves_playback_alone(
    config: CastSessionConfig,
    media: CastMediaTarget,
    s: SessionState,
    start: u64,
    dialed: u64,
    greeted_at: u64,
    asked: u64,
    beats: Seq<Beat>,
    info: crate::devices::cast::protocol::ReceiverStatusInfo,
    told: u64,
    joined: u64,
)
    requires
        s.phase is Down,
        s.lifecycle == DeviceState::Unreachable,
        !s.preempted,
        s.app is Some,
        runs_as(info.applications@, s.app->0.session_id@),
    ensures
        ({
            let events = reconnect_events(
                start,
                dialed,
                greeted_at,
                asked,
                beats,
                info,
                told,
                joined,
            );
            let after = after_events(config, media, s, events);
            let app = info.applications@[place_as(info.applications@, s.app->0.session_id@)];
            &&& first_as(
                info.applications@,
                s.app->0.session_id@,
                place_as(info.applications@, s.app->0.session_id@),
            )
            &&& sent_over(config, media, s, events) == seq![
                crate::devices::cast::protocol::connect_view(PLATFORM_RECEIVER_ID@),
                crate::devices::cast::protocol::get_status_view(following(s.request_id)),
            ] + pongs(beats) + seq![
                crate::devices::cast::protocol::connect_view(app.transport_id@),
            ]
            &&& after.phase is Up
            &&& after.lifecycle == DeviceState::Online
            &&& after.app == Some(app_in(app))
            &&& after.media_session_id == s.media_session_id
            &&& after.mode == s.mode
            &&& !after.preempted
        }),
{
    let apps = info.applications@;
    let ours = s.app->0.session_id@;
    let w = choose|i: int| 0 <= i < apps.len() && (#[trigger] apps[i]).session_id@ == ours;
    lemma_first_exists(apps, ours, w);
    let dial = seq![(SessionEvent::Start, start), (SessionEvent::Dialed(true), dialed)];
    let ask = seq![(SessionEvent::Sent(true), greeted_at), (SessionEvent::Sent(true), asked)];
    let join = seq![
        (SessionEvent::Message(InboundMessage::ReceiverStatus(info)), told),
        (SessionEvent::Sent(true), joined),
    ];
    lemma_reconnect_asks(config, media, s, start, dialed, greeted_at, asked);
    let waiting = after_events(config, media, s, dial + ask);
    lemma_beats(config, media, waiting, beats);
    let heard = after_events(config, media, waiting, beat_events(beats));
    lemma_survivor_is_joined(config, media, heard, info, told, joined);
    lemma_events_follow_on(config, media, s, dial + ask, beat_events(beats));
    lemma_events_follow_on(config, media, s, dial + ask + beat_events(beats), join);
}

/// What is not shown is loaded again. Where our app runs and the device is ours, a
/// rendition that was refused, a media session that is gone and a player of ours
/// that stands idle each degrade the device and set the time of another try: the
/// one that was set before, or else a whole reload delay from now.
pub proof fn law_lost_media_is_loaded_again(
    config: CastSessionConfig,
    media: CastMediaTarget,
    s: SessionState,
    msg: InboundMessage,
    i: int,
    now: u64,
)
    requires
        s.phase is Up,
        s.app is Some,
        !s.preempted,
        s.lifecycle == DeviceState::Online || s.lifecycle == DeviceState::Degraded,
        now + config.reload_delay@ <= u64::MAX,
        msg is LoadError || (msg matches InboundMessage::MediaStatus(entries) && (entries@.len() == 0
            || (s.media_session_id is Some && 0 <= i < entries@.len()
            && entries@[i].media_session_id == s.media_session_id && (forall|j: int|
            0 <= j < i ==> (#[trigger] entries@[j]).media_session_id != s.media_session_id)
            && entries@[i].player_state == PlayerState::Idle))),
    ensures
        ({
            let t = turn(config, media, s, SessionEvent::Message(msg), now);
            &&& t.state.reload_due is Some
            &&& s.reload_due is Some ==> t.state.reload_due == s.reload_due
            &&& s.reload_due is None ==> t.state.reload_due->0 == now + config.reload_delay@
            &&& t.state.lifecycle == DeviceState::Degraded
            &&& t.state.phase == s.phase
            &&& t.state.app == s.app
            &&& t.action == ActionView::Listen
            &&& msg is LoadError ==> t.state.mode == CastMode::LoadFailed
                && t.state.media_session_id is None
            &&& (msg matches InboundMessage::MediaStatus(entries) && entries@.len() == 0)
                ==> t.state.mode == CastMode::NoMedia && t.state.media_session_id is None
            &&& (msg matches InboundMessage::MediaStatus(entries) && entries@.len() > 0)
                ==> t.state.mode == CastMode::Player(PlayerState::Idle)
                && t.state.media_session_id == s.media_session_id
        }),
{
    if let InboundMessage::MediaStatus(entries) = msg {
        if entries@.len() > 0 {
            assert(first_media(entries@, s.media_session_id->0, i));
            let j = choose|j: int| first_media(entries@, s.media_session_id->0, j);
            lemma_first_media_unique(entries@, s.media_session_id->0, i, j);
        }
    }
}

/// When the time of another try has come, the rendition is sent to our app again,
/// under the next request id, and no further try is set.
pub proof fn law_reload_sends_the_rendition(
    config: CastSessionConfig,
    media: CastMediaTarget,
    s: SessionState,
    now: u64,
    later: u64,
)
    requires
        s.phase is Up,
        s.app is Some,
    ensures
        ({
            let t = turn(config, media, s, SessionEvent::ReloadDue, now);
            let up = turn(config, media, t.state, SessionEvent::Sent(true), later);
            &&& t.action == ActionView::Send(
                crate::devices::cast::protocol::load_view(
                    t.state.request_id,
                    s.app->0.transport_id@,
                    media,
                ),
            )
            &&& s.request_id < u32::MAX ==> t.state.request_id == s.request_id + 1
            &&& t.state.reload_due is None
            &&& t.state.media_session_id is None
            &&& t.state.app == s.app
            &&& up.state.phase == s.phase
            &&& up.action == ActionView::Listen
        }),
{
}

/// A player of ours that plays, buffers or pauses is what a device is for: the
/// device is online, shows what the player does, and nothing is loaded again.
pub proof fn law_active_player_is_online(
    config: CastSessionConfig,
    media: CastMediaTarget,
    s: SessionState,
    entries: Vec<MediaStatusEntry>,
    i: int,
    now: u64,
)
    requires
        s.phase is Up,
        s.app is Some,
        !s.preempted,
        s.lifecycle == DeviceState::Online || s.lifecycle == DeviceState::Degraded,
        0 <= i < entries@.len(),
        entries@[i].player_state != PlayerState::Idle,
        (s.media_session_id is Some && entries@[i].media_session_id == s.media_session_id && (
        forall|j: int|
            0 <= j < i ==> (#[trigger] entries@[j]).media_session_id != s.media_session_id)) || (
        s.media_session_id is None && (forall|j: int|
            0 <= j < i ==> (#[trigger] entries@[j]).player_state == PlayerState::Idle)),
    ensures
        ({
            let t = turn(
                config,
                media,
                s,
                SessionEvent::Message(InboundMessage::MediaStatus(entries)),
                now,
            );
            &&& t.state.lifecycle == DeviceState::Online
            &&& t.state.mode == CastMode::Player(entries@[i].player_state)
            &&& t.state.reload_due is None
            &&& t.state.media_session_id == entries@[i].media_session_id
            &&& t.effects.last() == (SessionEffect::Status {
                state: DeviceState::Online,
                mode: CastMode::Player(entries@[i].player_state),
            })
            &&& !t.state.preempted
        }),
{
    if s.media_session_id is Some {
        assert(first_media(entries@, s.media_session_id->0, i));
        let j = choose|j: int| first_media(entries@, s.media_session_id->0, j);
        lemma_first_media_unique(entries@, s.media_session_id->0, i, j);
    } else {
        assert(first_active(entries@, i));
        let j = choose|j: int| first_active(entries@, j);
        lemma_first_active_unique(entries@, i, j);
    }
}

/// Another media session that has something to play, where ours is gone, is another
/// sender's: the device is left to it.
pub proof fn law_other_media_preempts(
    config: CastSessionConfig,
    media: CastMediaTarget,
    s: SessionState,
    entries: Vec<MediaStatusEntry>,
    i: int,
    now: u64,
)
    requires
        s.phase is Up,
        s.app is Some,
        !s.preempted,
        s.lifecycle == DeviceState::Online || s.lifecycle == DeviceState::Degraded,
        s.media_session_id is Some,
        0 <= i < entries@.len(),
        entries@[i].player_state != PlayerState::Idle,
        forall|j: int|
            0 <= j < entries@.len() ==> (#[trigger] entries@[j]).media_session_id
                != s.media_session_id,
    ensures
        ({
            let t = turn(
                config,
                media,
                s,
                SessionEvent::Message(InboundMessage::MediaStatus(entries)),
                now,
            );
            &&& t.state.preempted
            &&& t.state.app is None && t.state.media_session_id is None && t.state.reload_due is None
            &&& t.state.mode == CastMode::Preempted
            &&& t.state.lifecycle == DeviceState::Degraded
            &&& t.effects.contains(SessionEffect::Preempted)
            &&& t.action == ActionView::Listen
        }),
{
    lemma_active_exists(entries@, i);
    let t = turn(config, media, s, SessionEvent::Message(InboundMessage::MediaStatus(entries)), now);
    assert(t.effects[0] == SessionEffect::Preempted);
}

/// Where something plays, something plays first.
proof fn lemma_active_exists(entries: Seq<MediaStatusEntry>, w: int)
    requires
        0 <= w < entries.len(),
        entries[w].player_state != PlayerState::Idle,
    ensures
        exists|i: int| first_active(entries, i),
    decreases w,
{
    if forall|j: int| 0 <= j < w ==> (#[trigger] entries[j]).player_state == PlayerState::Idle {
        assert(first_active(entries, w));
    } else {
        let j = choose|j: int|
            0 <= j < w && (#[trigger] entries[j]).player_state != PlayerState::Idle;
        lemma_active_exists(entries, j);
    }
}

/// A connect to a device on which no app of ours is known opens the conversation and
/// launches the media receiver, and then waits for it no longer than the launch
/// timeout.
pub proof fn law_first_connect_launches(
    config: CastSessionConfig,
    media: CastMediaTarget,
    s: SessionState,
    dialed: u64,
    greeted: u64,
    launched: u64,
)
    requires
        s.phase is Dialing,
        s.app is None,
        !s.preempted,
        s.request_id < u32::MAX,
        launched + config.launch_timeout@ <= u64::MAX,
    ensures
        ({
            let greeting = turn(config, media, s, SessionEvent::Dialed(true), dialed);
            let launching = turn(config, media, greeting.state, SessionEvent::Sent(true), greeted);
            let waiting = turn(config, media, launching.state, SessionEvent::Sent(true), launched);
            &&& greeting.action == ActionView::Send(
                crate::devices::cast::protocol::connect_view("receiver-0"@),
            )
            &&& launching.action == ActionView::Send(
                crate::devices::cast::protocol::launch_view((s.request_id + 1) as u32, "CC1AD845"@),
            )
            &&& waiting.action == ActionView::Listen
            &&& waiting.state.phase is AwaitApp
            &&& waiting.state.phase->AwaitApp_deadline == launched + config.launch_timeout@
            &&& waiting.state.lifecycle == s.lifecycle
            &&& waiting.effects.len() == 0
        }),
{
}

/// When the media receiver that was launched has come, it is greeted and the
/// rendition is loaded on it. The device is then online with that app.
pub proof fn law_launched_app_is_loaded(
    config: CastSessionConfig,
    media: CastMediaTarget,
    s: SessionState,
    info: crate::devices::cast::protocol::ReceiverStatusInfo,
    i: int,
    seen: u64,
    joined: u64,
    loaded: u64,
)
    requires
        s.phase is AwaitApp,
        !s.preempted,
        s.lifecycle == DeviceState::Adopting || s.lifecycle == DeviceState::Unreachable
            || s.lifecycle == DeviceState::Degraded,
        s.request_id < u32::MAX,
        0 <= i < info.applications@.len(),
        info.applications@[i].app_id@ == "CC1AD845"@,
        forall|j: int|
            0 <= j < i ==> (#[trigger] info.applications@[j]).app_id@ != "CC1AD845"@,
        loaded + config.ping_interval@ <= u64::MAX,
    ensures
        ({
            let joining = turn(
                config,
                media,
                s,
                SessionEvent::Message(InboundMessage::ReceiverStatus(info)),
                seen,
            );
            let loading = turn(config, media, joining.state, SessionEvent::Sent(true), joined);
            let up = turn(config, media, loading.state, SessionEvent::Sent(true), loaded);
            let transport = info.applications@[i].transport_id@;
            &&& joining.action == ActionView::Send(
                crate::devices::cast::protocol::connect_view(transport),
            )
            &&& loading.action == ActionView::Send(
                crate::devices::cast::protocol::load_view(
                    (s.request_id + 1) as u32,
                    transport,
                    media,
                ),
            )
            &&& up.action == ActionView::Listen
            &&& up.state.phase is Up
            &&& up.state.phase->Up_next_ping == loaded + config.ping_interval@
            &&& up.state.lifecycle == DeviceState::Online
            &&& up.state.app is Some
            &&& up.state.app->0.transport_id@ == transport
            &&& up.state.app->0.session_id@ == info.applications@[i].session_id@
            &&& up.state.media_session_id is None
            &&& up.effects.last() == (SessionEffect::Status {
                state: DeviceState::Online,
                mode: up.state.mode,
            })
        }),
{
    assert(first_receiver(info.applications@, i));
    let j = choose|j: int| first_receiver(info.applications@, j);
    lemma_first_receiver_unique(info.applications@, i, j);
}

/// Whatever goes wrong with a channel ends it: a dial or a message that fails, a
/// channel that breaks or closes, an answer that does not come. The device is out
/// of reach, and what was ours stays remembered.
pub proof fn law_broken_channel_is_out_of_reach(
    config: CastSessionConfig,
    media: CastMediaTarget,
    s: SessionState,
    event: SessionEvent,
    now: u64,
)
    requires
        s.lifecycle == DeviceState::Online || s.lifecycle == DeviceState::Degraded || s.lifecycle
            == DeviceState::Adopting || s.lifecycle == DeviceState::Unreachable,
        (event == SessionEvent::Dialed(false) && s.phase is Dialing) || (event
            == SessionEvent::Sent(false) && (s.phase is Greeting || s.phase is Asking || s.phase
            is StatusPong || s.phase is Resuming || s.phase is Launching || s.phase is LaunchPong
            || s.phase is Joining || s.phase is Loading || (s.phase is UpSending
            && s.phase->UpSending_what != Sending::Stop && s.phase->UpSending_what
            != Sending::Close))) || (event is ReceiveFailed && (s.phase is AwaitStatus || s.phase
            is AwaitApp || s.phase is Up)) || (event is TimedOut && (s.phase is AwaitStatus
            || s.phase is AwaitApp)) || (event == SessionEvent::Message(
            InboundMessage::CloseConnection,
        ) && (s.phase is AwaitStatus || s.phase is AwaitApp || s.phase is Up)),
    ensures
        ({
            let t = turn(config, media, s, event, now);
            &&& t.state.phase is Down
            &&& t.action == ActionView::Pause
            &&& t.state.lifecycle == DeviceState::Unreachable
            &&& t.state.app == s.app
            &&& t.state.media_session_id == s.media_session_id
            &&& t.state.preempted == s.preempted
            &&& t.state.reload_due is None
            &&& t.effects == seq![
                SessionEffect::Status { state: DeviceState::Unreachable, mode: s.mode },
            ]
        }),
{
}

/// A receiver that refuses to launch our app is there and is faulty: it is degraded
/// and is tried again over a new channel.
pub proof fn law_refused_launch_degrades(
    config: CastSessionConfig,
    media: CastMediaTarget,
    s: SessionState,
    msg: InboundMessage,
    now: u64,
)
    requires
        s.phase is AwaitApp,
        msg is LaunchError,
        s.lifecycle == DeviceState::Adopting || s.lifecycle == DeviceState::Unreachable
            || s.lifecycle == DeviceState::Degraded || s.lifecycle == DeviceState::Online,
    ensures
        ({
            let t = turn(config, media, s, SessionEvent::Message(msg), now);
            &&& t.state.lifecycle == DeviceState::Degraded
            &&& t.state.phase is Down
            &&& t.state.app is None
            &&& t.action == ActionView::Pause
        }),
{
}

/// Every ping of a receiver is answered, whatever the session waits for, and it
/// waits on afterwards. Hearing anything is a sign of life.
pub proof fn law_pings_are_answered(
    config: CastSessionConfig,
    media: CastMediaTarget,
    s: SessionState,
    now: u64,
    later: u64,
)
    requires
        s.phase is Up || s.phase is AwaitStatus || s.phase is AwaitApp,
    ensures
        ({
            let t = turn(config, media, s, SessionEvent::Message(InboundMessage::Ping), now);
            let u = turn(config, media, t.state, SessionEvent::Sent(true), later);
            &&& t.action == ActionView::Send(crate::devices::cast::protocol::pong_view())
            &&& u.state == (SessionState { last_inbound: now, ..s })
            &&& u.action == ActionView::Listen
            &&& t.effects.len() == 0 && u.effects.len() == 0
        }),
{
}

/// We ping too: one interval after the last one was sent the next is due.
pub proof fn law_pings_keep_their_interval(
    config: CastSessionConfig,
    media: CastMediaTarget,
    s: SessionState,
    now: u64,
    later: u64,
)
    requires
        s.phase is Up,
        s.last_inbound <= now,
        now - s.last_inbound < config.pong_timeout@,
        later + config.ping_interval@ <= u64::MAX,
    ensures
        ({
            let t = turn(config, media, s, SessionEvent::PingDue, now);
            let u = turn(config, media, t.state, SessionEvent::Sent(true), later);
            &&& t.action == ActionView::Send(crate::devices::cast::protocol::ping_view())
            &&& u.state.phase is Up
            &&& u.state.phase->Up_next_ping == later + config.ping_interval@
            &&& u.state.app == s.app && u.state.reload_due == s.reload_due
            &&& u.state.lifecycle == s.lifecycle
        }),
{
}

/// An operator's volume goes out as it was given, and leaves everything else as it
/// is; an operator's stop ends the app that is ours and then the session.
pub proof fn law_operator_is_obeyed(
    config: CastSessionConfig,
    media: CastMediaTarget,
    s: SessionState,
    percent: u8,
    now: u64,
    later: u64,
    last: u64,
)
    requires
        s.phase is Up,
        s.request_id < u32::MAX,
    ensures
        ({
            let t = turn(
                config,
                media,
                s,
                SessionEvent::Control(PollerControl::SetVolume { percent }),
                now,
            );
            let u = turn(config, media, t.state, SessionEvent::Sent(true), later);
            &&& t.action == ActionView::Send(
                crate::devices::cast::protocol::set_volume_view((s.request_id + 1) as u32, percent),
            )
            &&& u.state == (SessionState { request_id: (s.request_id + 1) as u32, ..s })
        }),
        s.app is Some ==> {
            let t = turn(config, media, s, SessionEvent::Control(PollerControl::StopCast), now);
            let u = turn(config, media, t.state, SessionEvent::Sent(true), later);
            let w = turn(config, media, u.state, SessionEvent::Sent(true), last);
            &&& t.action == ActionView::Send(
                crate::devices::cast::protocol::stop_view(
                    (s.request_id + 1) as u32,
                    s.app->0.session_id@,
                ),
            )
            &&& u.action == ActionView::Send(
                crate::devices::cast::protocol::close_view("receiver-0"@),
            )
            &&& w.action == ActionView::Exit
            &&& w.state.phase is Over
        },
        s.app is None ==> turn(
            config,
            media,
            s,
            SessionEvent::Control(PollerControl::StopCast),
            now,
        ).action == ActionView::Exit,
{
}

/// While a device is another sender's, a new channel only keeps watch: it is
/// greeted, nothing is launched or loaded, and the device stays degraded.
pub proof fn law_preempted_reconnect_keeps_watch(
    config: CastSessionConfig,
    media: CastMediaTarget,
    s: SessionState,
    now: u64,
)
    requires
        s.phase is Greeting,
        s.preempted,
        s.lifecycle == DeviceState::Unreachable,
    ensures
        ({
            let t = turn(config, media, s, SessionEvent::Sent(true), now);
            &&& t.action == ActionView::Listen
            &&& t.state.phase is Up
            &&& t.state.lifecycle == DeviceState::Degraded
            &&& t.state.preempted
        }),
{
}

/// While no media session of ours is known and every player stands idle, the rendition
/// is not shown either, and it is loaded again like one that was lost.
pub proof fn law_idle_receiver_is_loaded_again(
    config: CastSessionConfig,
    media: CastMediaTarget,
    s: SessionState,
    entries: Vec<MediaStatusEntry>,
    now: u64,
)
    requires
        s.phase is Up,
        s.app is Some,
        !s.preempted,
        s.media_session_id is None,
        s.lifecycle == DeviceState::Online || s.lifecycle == DeviceState::Degraded,
        entries@.len() > 0,
        forall|i: int|
            0 <= i < entries@.len() ==> (#[trigger] entries@[i]).player_state == PlayerState::Idle,
        now + config.reload_delay@ <= u64::MAX,
    ensures
        ({
            let t = turn(
                config,
                media,
                s,
                SessionEvent::Message(InboundMessage::MediaStatus(entries)),
                now,
            );
            &&& t.state.reload_due is Some
            &&& s.reload_due is Some ==> t.state.reload_due == s.reload_due
            &&& s.reload_due is None ==> t.state.reload_due->0 == now + config.reload_delay@
            &&& t.state.lifecycle == DeviceState::Degraded
            &&& t.state.mode == CastMode::Player(PlayerState::Idle)
            &&& t.state.media_session_id is None
            &&& !t.effects.contains(SessionEffect::LoadAccepted)
        }),
{
    let i = choose|i: int| first_active(entries@, i);
    assert(!first_active(entries@, i));
    assert(entries@[0].player_state == PlayerState::Idle);
    let t = turn(config, media, s, SessionEvent::Message(InboundMessage::MediaStatus(entries)), now);
    assert(t.effects.len() == 1);
}

/// A reconnect that does not find our app again asks what runs: where another app
/// runs, the device is another sender's and is left to it; where nothing does, our app
/// is launched again.
pub proof fn law_reconnect_without_our_app(
    config: CastSessionConfig,
    media: CastMediaTarget,
    s: SessionState,
    info: crate::devices::cast::protocol::ReceiverStatusInfo,
    now: u64,
)
    requires
        s.phase is AwaitStatus,
        s.app is Some,
        !s.preempted,
        s.lifecycle == DeviceState::Unreachable,
        s.request_id < u32::MAX,
        forall|i: int|
            0 <= i < info.applications@.len() ==> (#[trigger] info.applications@[i]).session_id@
                != s.app->0.session_id@,
    ensures
        ({
            let t = turn(
                config,
                media,
                s,
                SessionEvent::Message(InboundMessage::ReceiverStatus(info)),
                now,
            );
            &&& (exists|i: int|
                0 <= i < info.applications@.len()
                    && !(#[trigger] info.applications@[i]).is_idle_screen) ==> {
                &&& t.state.preempted
                &&& t.state.app is None
                &&& t.action == ActionView::Listen
                &&& t.state.phase is Up
                &&& t.state.lifecycle == DeviceState::Degraded
                &&& t.state.mode == CastMode::Preempted
                &&& t.effects.contains(SessionEffect::Preempted)
            }
            &&& (forall|i: int|
                0 <= i < info.applications@.len() ==> (
                #[trigger] info.applications@[i]).is_idle_screen) ==> {
                &&& !t.state.preempted
                &&& t.state.app is None
                &&& t.state.media_session_id is None
                &&& t.state.phase is Launching
                &&& t.action == ActionView::Send(
                    crate::devices::cast::protocol::launch_view(
                        (s.request_id + 1) as u32,
                        "CC1AD845"@,
                    ),
                )
            }
        }),
{
    let apps = info.applications@;
    assert(!runs_as(apps, s.app->0.session_id@));
    let t = turn(config, media, s, SessionEvent::Message(InboundMessage::ReceiverStatus(info)), now);
    if busy(apps) {
        assert(t.effects[0] == SessionEffect::Preempted);
    }
}

/// While our app runs, a status that still lists it changes nothing.
pub proof fn law_listed_app_goes_on(
    config: CastSessionConfig,
    media: CastMediaTarget,
    s: SessionState,
    info: crate::devices::cast::protocol::ReceiverStatusInfo,
    i: int,
    now: u64,
)
    requires
        s.phase is Up,
        s.app is Some,
        0 <= i < info.applications@.len(),
        info.applications@[i].session_id@ == s.app->0.session_id@,
    ensures
        ({
            let t = turn(
                config,
                media,
                s,
                SessionEvent::Message(InboundMessage::ReceiverStatus(info)),
                now,
            );
            &&& t.state == (SessionState { last_inbound: now, ..s })
            &&& t.action == ActionView::Listen
            &&& t.effects.len() == 0
        }),
{
    assert(runs_as(info.applications@, s.app->0.session_id@));
}

/// What a device shows is named for the operator.
pub proof fn law_modes_are_named(m: CastMode)
    ensures
        m == CastMode::Connecting ==> mode_name(m) == "connecting"@,
        m == CastMode::Loading ==> mode_name(m) == "loading"@,
        m == CastMode::Relaunching ==> mode_name(m) == "relaunching"@,
        m == CastMode::LoadFailed ==> mode_name(m) == "load-failed"@,
        m == CastMode::NoMedia ==> mode_name(m) == "no-media"@,
        m == CastMode::Preempted ==> mode_name(m) == "preempted"@,
        m == CastMode::Player(PlayerState::Playing) ==> mode_name(m) == "playing"@,
        m == CastMode::Player(PlayerState::Idle) ==> mode_name(m) == "idle"@,
{
}

/// What becomes of a session is published of its device: every change of state with
/// the mode and with what a cast device can do, and a preemption as an error.
pub proof fn law_effects_are_published(
    device_id: Seq<char>,
    effects: Seq<SessionEffect>,
    statuses: Map<Seq<char>, crate::devices::registry::StatusView>,
    state: DeviceState,
    mode: CastMode,
)
    ensures
        ({
            let all = effects.push(SessionEffect::Status { state, mode });
            let after = effect_statuses(device_id, statuses, all);
            &&& effect_events(device_id, all) == effect_events(device_id, effects).push(
                crate::devices::broadcaster::EventView::Status(after[device_id]),
            )
            &&& after.contains_key(device_id)
            &&& after[device_id].device_id == device_id
            &&& after[device_id].state == state
            &&& after[device_id].mode == Some(mode_name(mode))
            &&& after[device_id].capabilities is Some
            &&& after[device_id].capabilities->0.decode
            &&& after[device_id].capabilities->0.display
            &&& after[device_id].capabilities->0.audio
            &&& !after[device_id].capabilities->0.encode
            &&& !after[device_id].capabilities->0.reboot
            &&& !after[device_id].capabilities->0.firmware_update
            &&& after[device_id].capabilities->0.sync.rank == 0
        }),
        effect_events(device_id, effects.push(SessionEffect::Preempted)) == effect_events(
            device_id,
            effects,
        ).push(
            crate::devices::broadcaster::EventView::Error(
                device_id,
                "cast session preempted by another sender; restart the session to reclaim the device"@,
            ),
        ),
        effect_events(device_id, effects.push(SessionEffect::LoadAccepted)) == effect_events(
            device_id,
            effects,
        ),
        effect_statuses(device_id, statuses, effects.push(SessionEffect::Preempted))
            == effect_statuses(device_id, statuses, effects),
{
    let all = effects.push(SessionEffect::Status { state, mode });
    assert(all.drop_last() =~= effects);
    assert(effect_events(device_id, all) =~= effect_events(device_id, effects).push(
        crate::devices::broadcaster::EventView::Status(cast_status(device_id, state, mode)),
    ));
    let taken_over = effects.push(SessionEffect::Preempted);
    assert(taken_over.drop_last() =~= effects);
    let accepted = effects.push(SessionEffect::LoadAccepted);
    assert(accepted.drop_last() =~= effects);
    assert(effect_events(device_id, accepted) =~= effect_events(device_id, effects));
}

/// Request ids count up by one and begin again at nought behind the last.
pub proof fn law_request_ids_count_up(id: u32)
    ensures
        id < u32::MAX ==> following(id) == id + 1,
        following(u32::MAX) == 0,
{
}

/// A volume that is set while there is no channel is not sent, and the session goes on
/// waiting; a stop ends it at once.
pub proof fn law_control_without_a_channel(
    config: CastSessionConfig,
    media: CastMediaTarget,
    s: SessionState,
    percent: u8,
    now: u64,
)
    requires
        s.phase is Down,
    ensures
        ({
            let t = turn(
                config,
                media,
                s,
                SessionEvent::Control(PollerControl::SetVolume { percent }),
                now,
            );
            &&& t.action == ActionView::Pause
            &&& t.state.phase is Down
            &&& t.state.app == s.app
        }),
        turn(config, media, s, SessionEvent::Control(PollerControl::StopCast), now).action
            == ActionView::Exit,
        turn(config, media, s, SessionEvent::Start, now).action == ActionView::Dial,
{
}

/// A channel on which nothing was heard for the pong timeout is given up at the next
/// ping; one on which something was heard since is kept.
pub proof fn law_silence_is_measured_from_the_last_message(
    config: CastSessionConfig,
    media: CastMediaTarget,
    s: SessionState,
    now: u64,
)
    requires
        s.phase is Up,
        s.last_inbound <= now,
    ensures
        turn(config, media, s, SessionEvent::PingDue, now).state.phase is Down <==> now
            - s.last_inbound >= config.pong_timeout@,
        turn(config, media, s, SessionEvent::PingDue, now).action == ActionView::Pause <==> now
            - s.last_inbound >= config.pong_timeout@,
{
}

} // verus!
