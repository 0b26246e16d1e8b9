//! The driver of encoder and decoder appliances that are managed over HTTP.
//!
//! An appliance either encodes its input or decodes a stream. There is no
//! request that changes which: the driver closes what runs and then opens what
//! is wanted, and says beforehand what that interrupts.

pub mod client;
pub mod poller;
pub mod runtime;

use vstd::prelude::*;

use crate::devices::broadcaster::mode_impact_detail;
use crate::devices::projection::{OutputTarget, SourceCandidate};
use crate::devices::state_machine::{DeviceState, LifecycleEvent};
use crate::devices::zowietek::client::{is_auth_status, BitrateBps, ZowietekClientError};
use crate::json::Json;
use crate::text::{cat2, cat3, debug_text, decimal_text, str_eq};

verus! {

/// What an appliance does.
#[derive(Debug, Clone, Copy, PartialEq, Eq, Structural)]
pub enum WorkMode {
    /// It encodes its input.
    Encoder,
    /// It decodes a stream.
    Decoder,
}

/// The name of a mode.
pub open spec fn workmode_name(m: WorkMode) -> Seq<char> {
    match m {
        WorkMode::Encoder => "encoder"@,
        WorkMode::Decoder => "decoder"@,
    }
}

/// The mode of a name.
pub open spec fn workmode_named(token: Seq<char>) -> Option<WorkMode> {
    if token == "encoder"@ {
        Some(WorkMode::Encoder)
    } else if token == "decoder"@ {
        Some(WorkMode::Decoder)
    } else {
        None
    }
}

impl WorkMode {
    /// The name of the mode.
    pub fn as_str(self) -> (r: &'static str)
        ensures
            r@ == workmode_name(self),
    {
        match self {
            WorkMode::Encoder => "encoder",
            WorkMode::Decoder => "decoder",
        }
    }

    /// The mode of a name.
    pub fn parse(token: &str) -> (r: Option<Self>)
        ensures
            r == workmode_named(token@),
    {
        if str_eq(token, "encoder") {
            Some(WorkMode::Encoder)
        } else if str_eq(token, "decoder") {
            Some(WorkMode::Decoder)
        } else {
            None
        }
    }
}

/// How a mode is reached.
#[derive(Debug, PartialEq, Eq)]
pub enum ModeConvergence {
    /// It already is.
    AlreadyConverged {
        /// The mode.
        mode: String,
    },
    /// What runs is closed, and what is wanted is opened.
    Switch {
        /// The mode that is left.
        from: String,
        /// The mode that is wanted.
        to: String,
        /// What that interrupts, in words.
        impact_detail: String,
    },
}

/// How a mode is reached, the texts as sequences.
pub enum ConvergenceView {
    /// It already is.
    AlreadyConverged(Seq<char>),
    /// From a mode to a mode, and what that interrupts.
    Switch(Seq<char>, Seq<char>, Seq<char>),
}

/// How a mode is reached from the mode that was last seen.
pub open spec fn convergence(
    device_id: Seq<char>,
    current: Option<WorkMode>,
    desired: Seq<char>,
) -> ConvergenceView {
    match current {
        Some(m) => if workmode_name(m) == desired {
            ConvergenceView::AlreadyConverged(desired)
        } else {
            ConvergenceView::Switch(
                workmode_name(m),
                desired,
                crate::devices::broadcaster::mode_impact(device_id, desired),
            )
        },
        None => ConvergenceView::Switch(
            "unknown"@,
            desired,
            crate::devices::broadcaster::mode_impact(device_id, desired),
        ),
    }
}

impl ModeConvergence {
    /// The plan, its texts as sequences.
    pub open spec fn view(self) -> ConvergenceView {
        match self {
            ModeConvergence::AlreadyConverged { mode } => ConvergenceView::AlreadyConverged(mode@),
            ModeConvergence::Switch { from, to, impact_detail } => ConvergenceView::Switch(
                from@,
                to@,
                impact_detail@,
            ),
        }
    }

    /// What the plan interrupts, in words.
    pub fn declared_impact(&self) -> (r: String)
        ensures
            r@ == match self@ {
                ConvergenceView::AlreadyConverged(mode) => "device is already in "@
                    + crate::text::debug_of(mode) + "; no change, no disruption"@,
                ConvergenceView::Switch(_, _, impact) => impact,
            },
    {
        match self {
            ModeConvergence::AlreadyConverged { mode } => {
                let q = debug_text(mode.as_str());
                cat3("device is already in ", q.as_str(), "; no change, no disruption")
            },
            ModeConvergence::Switch { impact_detail, .. } => impact_detail.clone(),
        }
    }

    /// Whether the plan restarts the device.
    pub fn restarts_device(&self) -> (r: bool)
        ensures
            r == (self@ is Switch),
    {
        match self {
            ModeConvergence::Switch { .. } => true,
            ModeConvergence::AlreadyConverged { .. } => false,
        }
    }
}

/// Plan how a device reaches a mode, from the mode that was last seen of it.
pub fn plan_mode_convergence(device_id: &str, current: Option<WorkMode>, desired: &str) -> (r:
    ModeConvergence)
    ensures
        r@ == convergence(device_id@, current, desired@),
{
    let from = match current {
        Some(m) => {
            if str_eq(m.as_str(), desired) {
                return ModeConvergence::AlreadyConverged { mode: desired.to_owned() };
            }
            m.as_str().to_owned()
        },
        None => "unknown".to_owned(),
    };
    ModeConvergence::Switch {
        from,
        to: desired.to_owned(),
        impact_detail: mode_impact_detail(device_id, desired),
    }
}

// ---- What a device offers ----------------------------------------------------

/// The streams that an appliance at a host serves.
pub open spec fn served_mounts(host: Seq<char>) -> Seq<crate::devices::projection::CandidateView> {
    seq![
        crate::devices::projection::CandidateView {
            id: "main"@,
            kind: "rtsp"@,
            url: Some("rtsp://"@ + host + ":8554/main/av"@),
            unverified: false,
        },
        crate::devices::projection::CandidateView {
            id: "sub"@,
            kind: "rtsp"@,
            url: Some("rtsp://"@ + host + ":8554/sub/av"@),
            unverified: false,
        },
    ]
}

/// The streams that an appliance at a host serves.
pub fn enumerate_source_candidates(host: &str) -> (r: Vec<SourceCandidate>)
    ensures
        crate::devices::projection::candidate_views(r@) == served_mounts(host@),
{
    let mut out: Vec<SourceCandidate> = Vec::new();
    out.push(
        SourceCandidate {
            id: "main".to_owned(),
            kind: "rtsp".to_owned(),
            url: Some(cat3("rtsp://", host, ":8554/main/av")),
            unverified: false,
        },
    );
    out.push(
        SourceCandidate {
            id: "sub".to_owned(),
            kind: "rtsp".to_owned(),
            url: Some(cat3("rtsp://", host, ":8554/sub/av")),
            unverified: false,
        },
    );
    assert(crate::devices::projection::candidate_views(out@) =~= served_mounts(host@));
    out
}

/// A row of the decode table, at a position.
pub open spec fn decode_target(
    entry: crate::json::JsonView,
    position: nat,
) -> crate::devices::projection::TargetView {
    let index: nat = match entry.field("index"@) {
        Some(v) => match v.unsigned() {
            Some(n) => n as nat,
            None => position,
        },
        None => position,
    };
    crate::devices::projection::TargetView {
        id: "slot-"@ + crate::text::decimal(index),
        kind: match entry.text_field("proto"@) {
            Some(p) => p,
            None => "rtsp"@,
        },
        label: Some("decode slot "@ + crate::text::decimal(index)),
    }
}

/// The decode table of an appliance.
pub open spec fn decode_targets(data: crate::json::JsonView) -> Seq<
    crate::devices::projection::TargetView,
> {
    match data.field("entries"@) {
        Some(v) => match v.list() {
            Some(rows) => Seq::new(rows.len(), |i: int| decode_target(rows[i], i as nat)),
            None => Seq::empty(),
        },
        None => Seq::empty(),
    }
}

/// The decode table of an appliance.
pub fn parse_decode_targets(data: &Json) -> (r: Vec<OutputTarget>)
    ensures
        crate::devices::projection::target_views(r@) == decode_targets(data@),
{
    let mut out: Vec<OutputTarget> = Vec::new();
    assert(crate::devices::projection::target_views(out@) =~= Seq::empty());
    let rows = match data.field("entries") {
        None => {
            return out;
        },
        Some(v) => match v.list() {
            None => {
                return out;
            },
            Some(rows) => rows,
        },
    };
    let ghost all = decode_targets(data@);
    let mut i: usize = 0;
    while i < rows.len()
        invariant
            i <= rows.len(),
            all.len() == rows.len(),
            forall|k: int|
                0 <= k < all.len() ==> #[trigger] all[k] == decode_target(rows@[k]@, k as nat),
            crate::devices::projection::target_views(out@) == all.take(i as int),
        decreases rows.len() - i,
    {
        let ghost before = crate::devices::projection::target_views(out@);
        let entry = &rows[i];
        let index: u64 = match entry.field("index") {
            Some(v) => match v.unsigned() {
                Some(n) => n,
                None => i as u64,
            },
            None => i as u64,
        };
        let number = decimal_text(index);
        let t = OutputTarget {
            id: cat2("slot-", number.as_str()),
            kind: match entry.text_field("proto") {
                Some(p) => p.to_owned(),
                None => "rtsp".to_owned(),
            },
            label: Some(cat2("decode slot ", number.as_str())),
        };
        out.push(t);
        assert(crate::devices::projection::target_views(out@) =~= before.push(t@));
        assert(t@ == all[i as int]);
        assert(all.take(i + 1) =~= all.take(i as int).push(all[i as int]));
        i += 1;
    }
    assert(all.take(i as int) =~= all);
    out
}

/// A stream that does not say otherwise is healthy.
pub open spec fn stream_healthy(stream: crate::json::JsonView) -> bool {
    match stream.field("healthy"@) {
        Some(v) => match v.boolean() {
            Some(b) => b,
            None => true,
        },
        None => true,
    }
}

/// Every stream of an appliance is healthy.
pub open spec fn all_healthy(data: crate::json::JsonView) -> bool {
    match data.field("streams"@) {
        Some(v) => match v.list() {
            Some(rows) => forall|i: int| 0 <= i < rows.len() ==> stream_healthy(#[trigger] rows[i]),
            None => true,
        },
        None => true,
    }
}

/// Whether every stream of an appliance is healthy.
pub fn streams_healthy(data: &Json) -> (r: bool)
    ensures
        r == all_healthy(data@),
{
    let rows = match data.field("streams") {
        None => {
            return true;
        },
        Some(v) => match v.list() {
            None => {
                return true;
            },
            Some(rows) => rows,
        },
    };
    let ghost all = crate::json::items_view(rows@);
    let mut i: usize = 0;
    while i < rows.len()
        invariant
            i <= rows.len(),
            all == crate::json::items_view(rows@),
            data@.field("streams"@) is Some,
            data@.field("streams"@)->0.list() == Some(all),
            forall|k: int| 0 <= k < i ==> stream_healthy(#[trigger] all[k]),
        decreases rows.len() - i,
    {
        assert(all[i as int] == rows@[i as int]@);
        let healthy = match rows[i].field("healthy") {
            Some(v) => match v.boolean() {
                Some(b) => b,
                None => true,
            },
            None => true,
        };
        if !healthy {
            proof {
                assert(all.len() == rows@.len());
                assert(!stream_healthy(all[i as int]));
                if all_healthy(data@) {
                    assert(stream_healthy(data@.field("streams"@)->0.list()->0[i as int]));
                }
            }
            return false;
        }
        i += 1;
    }
    true
}

/// The mode that a probe reports: an encoder, unless it says it decodes.
pub open spec fn probed_mode(data: crate::json::JsonView) -> WorkMode {
    match data.text_field("workmode"@) {
        Some(token) => match workmode_named(token) {
            Some(m) => m,
            None => WorkMode::Encoder,
        },
        None => WorkMode::Encoder,
    }
}

/// The mode that a probe reports.
pub fn workmode_of(data: &Json) -> (r: WorkMode)
    ensures
        r == probed_mode(data@),
{
    match data.text_field("workmode") {
        Some(token) => match WorkMode::parse(token) {
            Some(m) => m,
            None => WorkMode::Encoder,
        },
        None => WorkMode::Encoder,
    }
}

/// The bitrate field of a probe, where it holds a number.
pub open spec fn probed_bitrate_field(data: crate::json::JsonView) -> Option<u64> {
    match data.field("bitrate"@) {
        Some(value) => value.unsigned(),
        None => None,
    }
}

/// The bitrate that a probe reports, where it reports one, or why it is not
/// believed. It says nothing about the mode.
pub fn probed_bitrate(data: &Json) -> (r: Option<Result<BitrateBps, ZowietekClientError>>)
    ensures
        match (probed_bitrate_field(data@), r) {
            (None, None) => true,
            (Some(field), Some(Ok(b))) => field
                >= crate::devices::zowietek::client::MIN_PLAUSIBLE_BPS && b@ == field,
            (Some(field), Some(Err(e))) => field
                < crate::devices::zowietek::client::MIN_PLAUSIBLE_BPS && e@
                == crate::devices::zowietek::client::ClientErrorView::ImplausibleBitrate(field),
            _ => false,
        },
{
    match data.field("bitrate") {
        Some(value) => match value.unsigned() {
            Some(field) => Some(BitrateBps::from_field(field)),
            None => None,
        },
        None => None,
    }
}

// ---- What a failure means ----------------------------------------------------

/// A failure rejects our credentials.
pub open spec fn rejects(e: crate::devices::zowietek::client::ClientErrorView) -> bool {
    match e {
        crate::devices::zowietek::client::ClientErrorView::Status(_, code, _) =>
            crate::devices::zowietek::client::auth_number(
            crate::devices::zowietek::client::status_number(code),
        ),
        _ => false,
    }
}

/// The state that a failure leaves a device in.
pub open spec fn failed_state(e: crate::devices::zowietek::client::ClientErrorView) -> DeviceState {
    if rejects(e) {
        DeviceState::AuthFailed
    } else {
        DeviceState::Unreachable
    }
}

/// The lifecycle event that a failure is.
pub open spec fn failed_event(e: crate::devices::zowietek::client::ClientErrorView) -> LifecycleEvent {
    if rejects(e) {
        LifecycleEvent::AuthRejected
    } else {
        LifecycleEvent::Unreachable
    }
}

/// The state that a failure leaves a device in.
pub fn lifecycle_state_for(err: &ZowietekClientError) -> (r: DeviceState)
    ensures
        r == failed_state(err@),
{
    match err {
        ZowietekClientError::Status { status, .. } => if is_auth_status(status.as_str()) {
            DeviceState::AuthFailed
        } else {
            DeviceState::Unreachable
        },
        _ => DeviceState::Unreachable,
    }
}

/// The lifecycle event that a failure is.
pub fn lifecycle_event_for(err: &ZowietekClientError) -> (r: LifecycleEvent)
    ensures
        r == failed_event(err@),
{
    match err {
        ZowietekClientError::Status { status, .. } => if is_auth_status(status.as_str()) {
            LifecycleEvent::AuthRejected
        } else {
            LifecycleEvent::Unreachable
        },
        _ => LifecycleEvent::Unreachable,
    }
}

// ---- Laws --------------------------------------------------------------------

/// A mode is read back from its name.
pub proof fn law_workmode_round_trip(m: WorkMode)
    ensures
        workmode_named(workmode_name(m)) == Some(m),
{
    reveal_strlit("encoder");
    reveal_strlit("decoder");
    assert("encoder"@[0] != "decoder"@[0]);
}

/// A device is restarted exactly where it is not already in the mode.
pub proof fn law_convergence_restarts_only_to_change(
    device_id: Seq<char>,
    current: Option<WorkMode>,
    desired: Seq<char>,
)
    ensures
        convergence(device_id, current, desired) is Switch <==> !(current matches Some(m)
            && workmode_name(m) == desired),
{
}

/// A device is healthy unless one of its streams says that it is not: streams
/// that say nothing, and devices that list none, are.
pub proof fn law_one_unhealthy_stream_is_enough(
    data: crate::json::JsonView,
    rows: Seq<crate::json::JsonView>,
    i: int,
)
    requires
        data.field("streams"@) == Some(crate::json::JsonView::List(rows)),
    ensures
        0 <= i < rows.len() && rows[i].field("healthy"@) == Some(crate::json::JsonView::Bool(false))
            ==> !all_healthy(data),
        (forall|j: int|
            0 <= j < rows.len() ==> (#[trigger] rows[j]).field("healthy"@) != Some(
                crate::json::JsonView::Bool(false),
            )) ==> all_healthy(data),
{
    if 0 <= i < rows.len() && rows[i].field("healthy"@) == Some(
        crate::json::JsonView::Bool(false),
    ) {
        assert(!stream_healthy(rows[i]));
    }
}

/// A device that lists no streams is healthy.
pub proof fn law_no_streams_are_healthy(data: crate::json::JsonView)
    requires
        data.field("streams"@) is None,
    ensures
        all_healthy(data),
{
}

/// A probe is taken at its word where it names a mode, and for an encoder
/// otherwise.
pub proof fn law_probe_tells_the_mode(data: crate::json::JsonView, token: Seq<char>)
    ensures
        data.field("workmode"@) == Some(crate::json::JsonView::Text("decoder"@)) ==> probed_mode(data)
            == WorkMode::Decoder,
        data.field("workmode"@) == Some(crate::json::JsonView::Text(token)) && token != "decoder"@
            ==> probed_mode(data) == WorkMode::Encoder,
        data.field("workmode"@) is None ==> probed_mode(data) == WorkMode::Encoder,
{
    reveal_strlit("decoder");
    reveal_strlit("encoder");
    assert("decoder"@[0] == 'd' && "encoder"@[0] == 'e');
}

/// A rejection of our credentials, the status number two or three, is the one
/// failure that opens the breaker. Every other failure is a device out of reach.
pub proof fn law_only_rejected_credentials_open_the_breaker(
    e: crate::devices::zowietek::client::ClientErrorView,
)
    ensures
        ({
            let rejected = e matches crate::devices::zowietek::client::ClientErrorView::Status(
                _,
                code,
                _,
            ) && (crate::devices::zowietek::client::status_number(code) == Some(2nat)
                || crate::devices::zowietek::client::status_number(code) == Some(3nat));
            &&& rejected ==> failed_state(e) == DeviceState::AuthFailed && failed_event(e)
                == LifecycleEvent::AuthRejected
            &&& !rejected ==> failed_state(e) == DeviceState::Unreachable && failed_event(e)
                == LifecycleEvent::Unreachable
        }),
{
}

/// The slots of a decode table are those that the device lists, in its order: a
/// slot is named by the number that the device gives it, or else by its place, and
/// is reached as the device says, or else by RTSP.
pub proof fn law_decode_slots_are_the_listed_ones(
    data: crate::json::JsonView,
    rows: Seq<crate::json::JsonView>,
    i: int,
    n: u64,
    proto: Seq<char>,
)
    requires
        data.field("entries"@) == Some(crate::json::JsonView::List(rows)),
        0 <= i < rows.len(),
    ensures
        decode_targets(data).len() == rows.len(),
        rows[i].field("index"@) == Some(crate::json::JsonView::Unsigned(n)) ==> decode_targets(
            data,
        )[i].id == "slot-"@ + crate::text::decimal(n as nat) && decode_targets(data)[i].label == Some(
            "decode slot "@ + crate::text::decimal(n as nat),
        ),
        rows[i].field("index"@) is None ==> decode_targets(data)[i].id == "slot-"@
            + crate::text::decimal(i as nat) && decode_targets(data)[i].label == Some(
            "decode slot "@ + crate::text::decimal(i as nat),
        ),
        rows[i].field("proto"@) == Some(crate::json::JsonView::Text(proto)) ==> decode_targets(
            data,
        )[i].kind == proto,
        rows[i].field("proto"@) is None ==> decode_targets(data)[i].kind == "rtsp"@,
{
}

/// A device serves its main and its sub stream by RTSP, each at its own mount of
/// the host, and is to be trusted to.
pub proof fn law_two_mounts_are_served(host: Seq<char>)
    ensures
        served_mounts(host).len() == 2,
        served_mounts(host)[0].id == "main"@ && served_mounts(host)[1].id == "sub"@,
        served_mounts(host)[0].url == Some("rtsp://"@ + host + ":8554/main/av"@),
        served_mounts(host)[1].url == Some("rtsp://"@ + host + ":8554/sub/av"@),
        forall|i: int|
            0 <= i < 2 ==> (#[trigger] served_mounts(host)[i]).kind == "rtsp"@
                && !served_mounts(host)[i].unverified,
{
}

/// A change of mode says where it comes from and where it goes, and what it
/// interrupts: what is wanted is what it goes to, and a mode that is not known is
/// called so.
pub proof fn law_switch_says_from_where_to_where(
    device_id: Seq<char>,
    current: Option<WorkMode>,
    desired: Seq<char>,
)
    ensures
        current == Some(WorkMode::Encoder) && desired == "encoder"@ ==> convergence(
            device_id,
            current,
            desired,
        ) == ConvergenceView::AlreadyConverged(desired),
        current == Some(WorkMode::Decoder) && desired == "decoder"@ ==> convergence(
            device_id,
            current,
            desired,
        ) == ConvergenceView::AlreadyConverged(desired),
        convergence(device_id, current, desired) matches ConvergenceView::Switch(from, to, _) ==> to
            == desired && (current is Some ==> from != desired) && (current == Some(WorkMode::Encoder) ==> from
            == "encoder"@) && (current == Some(WorkMode::Decoder) ==> from == "decoder"@) && (
        current is None ==> from == "unknown"@),
        current == Some(WorkMode::Encoder) && desired != "encoder"@ ==> convergence(
            device_id,
            current,
            desired,
        ) is Switch,
        current == Some(WorkMode::Decoder) && desired != "decoder"@ ==> convergence(
            device_id,
            current,
            desired,
        ) is Switch,
        current is None ==> convergence(device_id, current, desired) is Switch,
{
}

/// The bitrate of a probe is the number that it reports, and none where it reports no
/// number.
pub proof fn law_bitrate_is_read(data: crate::json::JsonView, n: u64, t: Seq<char>)
    ensures
        data.field("bitrate"@) == Some(crate::json::JsonView::Unsigned(n)) ==> probed_bitrate_field(
            data,
        ) == Some(n),
        data.field("bitrate"@) is None ==> probed_bitrate_field(data) is None,
        data.field("bitrate"@) == Some(crate::json::JsonView::Text(t)) ==> probed_bitrate_field(
            data,
        ) is None,
{
}

/// The modes go by their names.
pub proof fn law_modes_are_named(m: WorkMode)
    ensures
        m == WorkMode::Encoder ==> workmode_name(m) == "encoder"@,
        m == WorkMode::Decoder ==> workmode_name(m) == "decoder"@,
{
}

} // verus!
