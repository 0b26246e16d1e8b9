//! The one place from which device events are published.
//!
//! The status of a device goes into the registry before its event goes out, so
//! that whoever sees the event finds the status.

use vstd::prelude::*;

use crate::devices::registry::{DeviceStatus, DeviceStatusRegistry};
use crate::devices::state_machine::DeviceState;
use crate::text::{cat3, debug_text};

verus! {

/// The driver of a managed device.
#[derive(Debug, PartialEq, Eq)]
pub enum DeviceDriver {
    /// An encoder or decoder appliance.
    Zowietek,
    /// A Cast receiver.
    Cast,
    /// Another driver, by its wire name.
    Other(String),
}

/// The wire name of a driver.
pub open spec fn driver_name(d: DeviceDriver) -> Seq<char> {
    match d {
        DeviceDriver::Zowietek => "zowietek"@,
        DeviceDriver::Cast => "cast"@,
        DeviceDriver::Other(name) => name@,
    }
}

impl DeviceDriver {
    /// The wire name.
    pub fn as_str(&self) -> (r: &str)
        ensures
            r@ == driver_name(*self),
    {
        match self {
            DeviceDriver::Zowietek => "zowietek",
            DeviceDriver::Cast => "cast",
            DeviceDriver::Other(name) => name.as_str(),
        }
    }
}

/// Which half of the internet an address belongs to.
#[derive(Debug, Clone, Copy, PartialEq, Eq, Structural)]
pub enum AddressFamily {
    /// IPv6.
    Ipv6,
    /// IPv4, kept for old devices.
    Ipv4Legacy,
}

/// How far a mode change has come.
#[derive(Debug, Clone, Copy, PartialEq, Eq, Structural)]
pub enum ModePhase {
    /// It was started.
    Started,
    /// The device reached the mode.
    Finished,
    /// It did not.
    Failed,
}

/// What a change interrupts.
#[derive(Debug, Clone, Copy, PartialEq, Eq, Structural)]
pub enum ImpactClass {
    /// The device itself, and no output.
    Device,
}

/// A device event.
#[derive(Debug, PartialEq, Eq)]
pub enum Event {
    /// A device was adopted.
    DeviceAdopted {
        /// The device.
        device_id: String,
        /// The wire name of its driver.
        driver: String,
        /// What operators call it.
        name: Option<String>,
    },
    /// A device was removed.
    DeviceRemoved {
        /// The device.
        device_id: String,
    },
    /// The latest status of a device.
    DeviceStatus(DeviceStatus),
    /// A mode change of a device.
    DeviceMode {
        /// The device.
        device_id: String,
        /// The mode.
        mode: String,
        /// How far it has come.
        phase: ModePhase,
        /// What it interrupts.
        impact: ImpactClass,
        /// The same in words.
        detail: String,
    },
    /// A service was seen on the network.
    DeviceDiscovered {
        /// The wire name of the driver that would manage it.
        driver: String,
        /// Where it can be managed.
        address: String,
        /// The family of that address.
        family: AddressFamily,
        /// The name it gives.
        name: Option<String>,
        /// The discovery domain of the observing node.
        domain: Option<String>,
    },
    /// Something went wrong with a device.
    DeviceError {
        /// The device.
        device_id: String,
        /// What went wrong.
        message: String,
    },
    /// A cast session began.
    CastSessionStarted {
        /// The session.
        session_id: String,
        /// What operators call it.
        name: Option<String>,
        /// The receiver.
        address: String,
        /// The output that it shows.
        output: String,
    },
    /// A cast session is over.
    CastSessionRemoved {
        /// The session.
        session_id: String,
    },
}

/// A device event, its texts as sequences.
pub enum EventView {
    /// A device was adopted: its id, its driver's wire name, its name.
    Adopted(Seq<char>, Seq<char>, Option<Seq<char>>),
    /// A device was removed.
    Removed(Seq<char>),
    /// The latest status of a device.
    Status(crate::devices::registry::StatusView),
    /// A mode change: the device, the mode, how far, and what it interrupts.
    Mode(Seq<char>, Seq<char>, ModePhase, ImpactClass, Seq<char>),
    /// A service was seen: driver, address, family, name, domain.
    Discovered(Seq<char>, Seq<char>, AddressFamily, Option<Seq<char>>, Option<Seq<char>>),
    /// Something went wrong: the device, and what.
    Error(Seq<char>, Seq<char>),
    /// A cast session began: its id, name, receiver and output.
    CastStarted(Seq<char>, Option<Seq<char>>, Seq<char>, Seq<char>),
    /// A cast session is over.
    CastRemoved(Seq<char>),
}

impl Event {
    /// The event, its texts as sequences.
    pub open spec fn view(self) -> EventView {
        match self {
            Event::DeviceAdopted { device_id, driver, name } => EventView::Adopted(
                device_id@,
                driver@,
                crate::text::text_opt(name),
            ),
            Event::DeviceRemoved { device_id } => EventView::Removed(device_id@),
            Event::DeviceStatus(s) => EventView::Status(s@),
            Event::DeviceMode { device_id, mode, phase, impact, detail } => EventView::Mode(
                device_id@,
                mode@,
                phase,
                impact,
                detail@,
            ),
            Event::DeviceDiscovered { driver, address, family, name, domain } => EventView::Discovered(
                driver@,
                address@,
                family,
                crate::text::text_opt(name),
                crate::text::text_opt(domain),
            ),
            Event::DeviceError { device_id, message } => EventView::Error(device_id@, message@),
            Event::CastSessionStarted { session_id, name, address, output } => EventView::CastStarted(
                session_id@,
                crate::text::text_opt(name),
                address@,
                output@,
            ),
            Event::CastSessionRemoved { session_id } => EventView::CastRemoved(session_id@),
        }
    }
}

/// The events, their texts as sequences.
pub open spec fn event_views(events: Seq<Event>) -> Seq<EventView> {
    events.map_values(|e: Event| e@)
}

/// What a mode change interrupts, in words.
pub open spec fn mode_impact(device_id: Seq<char>, mode: Seq<char>) -> Seq<char> {
    "device "@ + device_id + " restarts its pipeline to converge to "@ + crate::text::debug_of(mode)
        + "; bound sources from this device ride the tile ladder to NO_SIGNAL during the switch; no Multiview outputs are affected"@
}

/// What a mode change interrupts, in words.
pub fn mode_impact_detail(device_id: &str, mode: &str) -> (r: String)
    ensures
        r@ == mode_impact(device_id@, mode@),
{
    let quoted = debug_text(mode);
    let head = cat3("device ", device_id, " restarts its pipeline to converge to ");
    cat3(
        head.as_str(),
        quoted.as_str(),
        "; bound sources from this device ride the tile ladder to NO_SIGNAL during the switch; no Multiview outputs are affected",
    )
}

/// Publishes device events and keeps the registry current.
pub struct DeviceBroadcaster {
    registry: DeviceStatusRegistry,
    events: Vec<Event>,
}

impl DeviceBroadcaster {
    /// The latest status of each device.
    pub closed spec fn statuses(self) -> Map<Seq<char>, crate::devices::registry::StatusView> {
        self.registry@
    }

    /// The events that were published and not yet taken.
    pub closed spec fn published(self) -> Seq<EventView> {
        event_views(self.events@)
    }

    /// The broadcaster is one that the operations below can reach.
    pub closed spec fn wf(self) -> bool {
        self.registry.wf()
    }

    /// A broadcaster over a registry, with nothing published.
    pub fn new(registry: DeviceStatusRegistry) -> (r: Self)
        requires
            registry.wf(),
        ensures
            r.wf(),
            r.statuses() == registry@,
            r.published() == Seq::<EventView>::empty(),
    {
        let r = DeviceBroadcaster { registry, events: Vec::new() };
        assert(r.published() =~= Seq::<EventView>::empty());
        r
    }

    /// The registry.
    pub fn registry(&self) -> (r: &DeviceStatusRegistry)
        requires
            self.wf(),
        ensures
            r.wf(),
            r@ == self.statuses(),
    {
        &self.registry
    }

    /// Take the events that were published, oldest first.
    pub fn take_events(&mut self) -> (r: Vec<Event>)
        requires
            old(self).wf(),
        ensures
            final(self).wf(),
            final(self).statuses() == old(self).statuses(),
            event_views(r@) == old(self).published(),
            final(self).published() == Seq::<EventView>::empty(),
    {
        let mut out: Vec<Event> = Vec::new();
        std::mem::swap(&mut out, &mut self.events);
        assert(self.published() =~= Seq::<EventView>::empty());
        out
    }

    fn publish_event(&mut self, event: Event)
        requires
            old(self).wf(),
        ensures
            final(self).wf(),
            final(self).statuses() == old(self).statuses(),
            final(self).published() == old(self).published().push(event@),
    {
        let ghost before = self.events@;
        self.events.push(event);
        assert(event_views(self.events@) =~= event_views(before).push(event@));
    }

    /// A device was adopted. Its status begins as adopting, unless it has one.
    pub fn adopted(&mut self, device_id: &str, driver: DeviceDriver, name: Option<String>)
        requires
            old(self).wf(),
        ensures
            final(self).wf(),
            final(self).published() == old(self).published().push(
                EventView::Adopted(device_id@, driver_name(driver), crate::text::text_opt(name)),
            ),
            final(self).statuses() == if old(self).statuses().contains_key(device_id@) {
                old(self).statuses()
            } else {
                old(self).statuses().insert(
                    device_id@,
                    crate::devices::registry::bare_status(device_id@, DeviceState::Adopting),
                )
            },
    {
        self.registry.ensure(device_id);
        self.publish_event(
            Event::DeviceAdopted {
                device_id: device_id.to_owned(),
                driver: driver.as_str().to_owned(),
                name,
            },
        );
    }

    /// A device was removed, and its status with it.
    pub fn removed(&mut self, device_id: &str)
        requires
            old(self).wf(),
        ensures
            final(self).wf(),
            final(self).statuses() == old(self).statuses().remove(device_id@),
            final(self).published() == old(self).published().push(EventView::Removed(device_id@)),
    {
        self.registry.forget(device_id);
        self.publish_event(Event::DeviceRemoved { device_id: device_id.to_owned() });
    }

    /// Publish that a device is in a state.
    pub fn status(&mut self, device_id: &str, state: DeviceState)
        requires
            old(self).wf(),
        ensures
            final(self).wf(),
            ({
                let s = crate::devices::registry::bare_status(device_id@, state);
                &&& final(self).statuses() == old(self).statuses().insert(device_id@, s)
                &&& final(self).published() == old(self).published().push(EventView::Status(s))
            }),
    {
        self.publish_status(DeviceStatus::new(device_id, state));
    }

    /// Publish the latest status of a device.
    pub fn publish_status(&mut self, status: DeviceStatus)
        requires
            old(self).wf(),
        ensures
            final(self).wf(),
            final(self).statuses() == old(self).statuses().insert(status.device_id@, status@),
            final(self).published() == old(self).published().push(EventView::Status(status@)),
    {
        let copy = status.clone();
        self.registry.set_status(status);
        self.publish_event(Event::DeviceStatus(copy));
    }

    /// Publish that a mode change was started.
    pub fn mode_started(&mut self, device_id: &str, mode: &str)
        requires
            old(self).wf(),
        ensures
            final(self).wf(),
            final(self).statuses() == old(self).statuses(),
            final(self).published() == old(self).published().push(
                mode_event(device_id@, mode@, ModePhase::Started),
            ),
    {
        self.publish_mode(device_id, mode, ModePhase::Started);
    }

    /// Publish that a device reached a mode.
    pub fn mode_finished(&mut self, device_id: &str, mode: &str)
        requires
            old(self).wf(),
        ensures
            final(self).wf(),
            final(self).statuses() == old(self).statuses(),
            final(self).published() == old(self).published().push(
                mode_event(device_id@, mode@, ModePhase::Finished),
            ),
    {
        self.publish_mode(device_id, mode, ModePhase::Finished);
    }

    /// Publish that a device did not reach a mode.
    pub fn mode_failed(&mut self, device_id: &str, mode: &str)
        requires
            old(self).wf(),
        ensures
            final(self).wf(),
            final(self).statuses() == old(self).statuses(),
            final(self).published() == old(self).published().push(
                mode_event(device_id@, mode@, ModePhase::Failed),
            ),
    {
        self.publish_mode(device_id, mode, ModePhase::Failed);
    }

    fn publish_mode(&mut self, device_id: &str, mode: &str, phase: ModePhase)
        requires
            old(self).wf(),
        ensures
            final(self).wf(),
            final(self).statuses() == old(self).statuses(),
            final(self).published() == old(self).published().push(
                mode_event(device_id@, mode@, phase),
            ),
    {
        self.publish_event(
            Event::DeviceMode {
                device_id: device_id.to_owned(),
                mode: mode.to_owned(),
                phase,
                impact: ImpactClass::Device,
                detail: mode_impact_detail(device_id, mode),
            },
        );
    }

    /// Publish that a service was seen. It is a hint: no device comes of it.
    pub fn discovered(
        &mut self,
        driver: &str,
        address: &str,
        family: AddressFamily,
        name: Option<String>,
        domain: Option<String>,
    )
        requires
            old(self).wf(),
        ensures
            final(self).wf(),
            final(self).statuses() == old(self).statuses(),
            final(self).published() == old(self).published().push(
                EventView::Discovered(
                    driver@,
                    address@,
                    family,
                    crate::text::text_opt(name),
                    crate::text::text_opt(domain),
                ),
            ),
    {
        self.publish_event(
            Event::DeviceDiscovered {
                driver: driver.to_owned(),
                address: address.to_owned(),
                family,
                name,
                domain,
            },
        );
    }

    /// Publish that something went wrong with a device.
    pub fn error(&mut self, device_id: &str, message: &str)
        requires
            old(self).wf(),
        ensures
            final(self).wf(),
            final(self).statuses() == old(self).statuses(),
            final(self).published() == old(self).published().push(
                EventView::Error(device_id@, message@),
            ),
    {
        self.publish_event(
            Event::DeviceError { device_id: device_id.to_owned(), message: message.to_owned() },
        );
    }

    /// Publish that a cast session began. The session's status and record are
    /// left alone.
    pub fn cast_session_started(
        &mut self,
        session_id: &str,
        name: Option<String>,
        address: &str,
        output: &str,
    )
        requires
            old(self).wf(),
        ensures
            final(self).wf(),
            final(self).statuses() == old(self).statuses(),
            final(self).published() == old(self).published().push(
                EventView::CastStarted(
                    session_id@,
                    crate::text::text_opt(name),
                    address@,
                    output@,
                ),
            ),
    {
        self.publish_event(
            Event::CastSessionStarted {
                session_id: session_id.to_owned(),
                name,
                address: address.to_owned(),
                output: output.to_owned(),
            },
        );
    }

    /// Publish that a cast session is over.
    pub fn cast_session_removed(&mut self, session_id: &str)
        requires
            old(self).wf(),
        ensures
            final(self).wf(),
            final(self).statuses() == old(self).statuses(),
            final(self).published() == old(self).published().push(
                EventView::CastRemoved(session_id@),
            ),
    {
        self.publish_event(Event::CastSessionRemoved { session_id: session_id.to_owned() });
    }
}

/// The event of a mode change.
pub open spec fn mode_event(device_id: Seq<char>, mode: Seq<char>, phase: ModePhase) -> EventView {
    EventView::Mode(
        device_id,
        mode,
        phase,
        ImpactClass::Device,
        mode_impact(device_id, mode),
    )
}

/// A mode switch is announced as one that concerns the device alone, with its phase
/// and with what it means for the sources that are bound to the device.
pub proof fn law_mode_switch_concerns_the_device(
    device_id: Seq<char>,
    mode: Seq<char>,
    phase: ModePhase,
)
    ensures
        mode_event(device_id, mode, phase) matches EventView::Mode(id, m, p, impact, detail) && {
            &&& id == device_id
            &&& m == mode
            &&& p == phase
            &&& impact == ImpactClass::Device
            &&& ("device "@ + device_id + " restarts its pipeline to converge to "@
                + crate::text::debug_of(mode)).is_prefix_of(detail)
        },
{
    let detail = mode_impact(device_id, mode);
    let front = "device "@ + device_id + " restarts its pipeline to converge to "@
        + crate::text::debug_of(mode);
    assert(detail.take(front.len() as int) =~= front);
}

/// A driver goes by its name: the two that are built in by theirs, any other by the
/// one it was configured with.
pub proof fn law_drivers_are_named(d: DeviceDriver)
    ensures
        d is Zowietek ==> driver_name(d) == "zowietek"@,
        d is Cast ==> driver_name(d) == "cast"@,
        d matches DeviceDriver::Other(name) ==> driver_name(d) == name@,
{
}

} // verus!
