//! Which devices are supervised, and by what.
//!
//! A device that was stopped stays stopped until it is created anew: whoever
//! was about to start it comes too late.

use vstd::prelude::*;

use crate::devices::broadcaster::DeviceDriver;
use crate::devices::cast::media::DisplayAssign;
use crate::devices::cast::runtime::CastSessionFactory;
use crate::devices::cast::session::CastSessionActor;
use crate::devices::zowietek::poller::{PollerConfig, ReconnectPolicy, ZowietekPoller};
use crate::model::clone_opt;
use crate::table::Table;
use crate::text::{find_char, rfind_char, trim, CharClass};

verus! {

/// A managed device, as configured.
#[derive(Debug, PartialEq, Eq)]
pub struct Device {
    /// Its id.
    pub id: String,
    /// Its driver.
    pub driver: DeviceDriver,
    /// Where it is managed.
    pub address: Option<String>,
    /// The mode that is wanted of it.
    pub desired_mode: Option<String>,
    /// How it is reconnected.
    pub reconnect: Option<ReconnectPolicy>,
    /// What it shows.
    pub assign: Option<DisplayAssign>,
}

// ---- Hosts -------------------------------------------------------------------

/// What follows the scheme of an address; where it has none, the whole without
/// white space around it.
pub open spec fn without_scheme(address: Seq<char>) -> Seq<char> {
    if crate::devices::zowietek::client::has_scheme(address) {
        address.skip(first_scheme(address) + 3)
    } else {
        crate::text::trim_of(address, CharClass::White)
    }
}

/// Where the first scheme of an address ends.
pub open spec fn first_scheme(address: Seq<char>) -> int {
    choose|i: int| first_scheme_at(address, i)
}

/// The first scheme ends at `i`.
pub open spec fn first_scheme_at(address: Seq<char>, i: int) -> bool {
    &&& crate::devices::zowietek::client::scheme_at(address, i)
    &&& forall|j: int| 0 <= j < i ==> !#[trigger] crate::devices::zowietek::client::scheme_at(
        address,
        j,
    )
}

/// The host of a management address, in brackets where it is an IPv6 literal,
/// without its scheme, its port and its path.
pub open spec fn host_in(address: Seq<char>) -> Seq<char> {
    let authority = crate::devices::cast::media::before_first(without_scheme(address), '/');
    match crate::text::last_index(authority, ']') {
        Some(i) => authority.take(i + 1),
        None => match crate::text::last_index(authority, ':') {
            Some(i) => authority.take(i),
            None => authority,
        },
    }
}

/// Where the first scheme of an address ends.
fn find_first_scheme(s: &str) -> (r: Option<usize>)
    ensures
        match r {
            Some(i) => first_scheme_at(s@, i as int),
            None => !crate::devices::zowietek::client::has_scheme(s@),
        },
{
    let v = crate::text::chars_of(s);
    let mut i: usize = 0;
    while i < v.len()
        invariant
            v@ == s@,
            i <= v.len(),
            forall|j: int|
                0 <= j < i ==> !#[trigger] crate::devices::zowietek::client::scheme_at(s@, j),
        decreases v.len() - i,
    {
        if v.len() - i > 2 && v[i] == ':' && v[i + 1] == '/' && v[i + 2] == '/' {
            assert(crate::devices::zowietek::client::scheme_at(s@, i as int));
            return Some(i);
        }
        i += 1;
    }
    None
}

/// The host of a management address.
pub fn management_host(address: &str) -> (r: String)
    ensures
        r@ == host_in(address@),
{
    let rest = match find_first_scheme(address) {
        Some(i) => {
            let n: usize = address.unicode_len();
            proof {
                assert(first_scheme_at(address@, i as int));
                let k = first_scheme(address@);
                assert(crate::devices::zowietek::client::has_scheme(address@));
                assert(k == i) by {
                    if k < i {
                        assert(crate::devices::zowietek::client::scheme_at(address@, k));
                    } else if i < k {
                        assert(crate::devices::zowietek::client::scheme_at(address@, i as int));
                    }
                }
            }
            let t = address.substring_char(i + 3, n);
            assert(t@ =~= address@.skip(i + 3));
            t
        },
        None => trim(address, CharClass::White),
    };
    assert(rest@ == without_scheme(address@));
    let authority = match find_char(rest, '/') {
        Some(i) => {
            let t = rest.substring_char(0, i);
            assert(t@ =~= rest@.take(i as int));
            t
        },
        None => rest,
    };
    match rfind_char(authority, ']') {
        Some(i) => {
            let m: usize = authority.unicode_len();
            assert(i < m);
            let t = authority.substring_char(0, i + 1);
            assert(t@ =~= authority@.take(i + 1));
            t.to_owned()
        },
        None => match rfind_char(authority, ':') {
            Some(i) => {
                let t = authority.substring_char(0, i);
                assert(t@ =~= authority@.take(i as int));
                t.to_owned()
            },
            None => authority.to_owned(),
        },
    }
}

// ---- Factories ---------------------------------------------------------------

/// What supervises a device.
pub enum Actor {
    /// The supervision of an appliance.
    Poller(ZowietekPoller),
    /// A cast session.
    Session(CastSessionActor),
}

/// The factory that supervises nothing.
#[derive(Debug, Clone, Copy, PartialEq, Eq, Structural)]
pub struct NoPollerFactory;

impl NoPollerFactory {
    /// Nothing.
    pub fn spawn(&self, _device: &Device, _now: u64) -> (r: Option<Actor>)
        ensures
            r is None,
    {
        None
    }
}

/// The cadence that a policy asks for.
pub open spec fn cadence_of(policy: Option<ReconnectPolicy>, config: PollerConfig) -> bool {
    &&& config.poll_period@ == 1_000_000_000
    &&& config.backoff_factor == 2
    &&& match policy {
        Some(p) => config.backoff_base@ == p.initial_ms * 1_000_000 && config.backoff_max@
            == p.max_ms * 1_000_000,
        None => config.backoff_base@ == 500_000_000 && config.backoff_max@ == 30_000_000_000,
    }
}

/// An appliance is supervised: it has an address, and there are credentials.
pub open spec fn polls(device: Device, credentials: Option<(String, String)>) -> bool {
    device.driver is Zowietek && device.address is Some && credentials is Some
}

/// The supervision of an appliance as it begins.
pub open spec fn polls_as(
    device: Device,
    credentials: Option<(String, String)>,
    p: ZowietekPoller,
) -> bool {
    &&& credentials matches Some((username, password))
    &&& p.who() == (crate::devices::zowietek::poller::Who {
        device_id: device.id@,
        host: host_in(device.address->0@),
        username: username@,
        password: password@,
    })
    &&& cadence_of(device.reconnect, p.cadence())
    &&& p@.desired_mode == device.desired_mode
    &&& p@.phase is Idle
    &&& p@.lifecycle == crate::devices::state_machine::DeviceState::Adopting
    &&& p@.session is None
    &&& p@.workmode is None
    &&& p@.backoff.failed() == 0
    &&& crate::devices::zowietek::poller::poll_wf(p@)
}

/// The supervision of an appliance, where it gets one.
pub fn spawn_zowietek(device: &Device, credentials: Option<(String, String)>) -> (r: Option<
    ZowietekPoller,
>)
    ensures
        match r {
            Some(p) => polls(*device, credentials) && polls_as(*device, credentials, p),
            None => !polls(*device, credentials),
        },
{
    match &device.driver {
        DeviceDriver::Zowietek => {},
        _ => {
            return None;
        },
    }
    let address = match &device.address {
        Some(a) => a.as_str(),
        None => {
            return None;
        },
    };
    let (username, password) = match credentials {
        Some(c) => c,
        None => {
            return None;
        },
    };
    let host = management_host(address);
    let config = match device.reconnect {
        Some(policy) => PollerConfig::from_reconnect_policy(policy),
        None => PollerConfig::default(),
    };
    let poller = ZowietekPoller::new(
        device.id.as_str(),
        host.as_str(),
        username.as_str(),
        password.as_str(),
        config,
    );
    Some(poller.with_desired_mode(clone_opt(&device.desired_mode)))
}

/// A driver's factory.
pub enum PollerFactory {
    /// It supervises nothing.
    Nothing(NoPollerFactory),
    /// It supervises cast devices.
    Cast(CastSessionFactory),
    /// It supervises appliances.
    Zowietek,
}

impl PollerFactory {
    /// The factory is one that its constructors make.
    pub open spec fn wf(self) -> bool {
        match self {
            PollerFactory::Cast(f) => f.wf(),
            _ => true,
        }
    }

    /// The factory supervises a device.
    pub open spec fn manages(
        self,
        device: Device,
        credentials: Option<(String, String)>,
    ) -> bool {
        match self {
            PollerFactory::Nothing(_) => false,
            PollerFactory::Cast(f) => crate::devices::cast::runtime::casts(
                f.serves(),
                device,
            ) is Some,
            PollerFactory::Zowietek => polls(device, credentials),
        }
    }

    /// The factory made an actor for a device.
    pub open spec fn made(
        self,
        device: Device,
        credentials: Option<(String, String)>,
        now: u64,
        actor: Actor,
    ) -> bool {
        match (self, actor) {
            (PollerFactory::Cast(f), Actor::Session(a)) => {
                &&& Some(a.plays()) == crate::devices::cast::runtime::casts(f.serves(), device)
                &&& a.device() == device.id@
                &&& a.dials() == device.address->0@
                &&& a.cadence() == f.cadence()
                &&& a@ == crate::devices::cast::session::fresh(now)
            },
            (PollerFactory::Zowietek, Actor::Poller(p)) => polls_as(device, credentials, p),
            _ => false,
        }
    }

    /// The actor of a device, where the factory supervises it.
    pub fn spawn(&self, device: &Device, credentials: Option<(String, String)>, now: u64) -> (r:
        Option<Actor>)
        requires
            self.wf(),
        ensures
            match r {
                Some(actor) => self.manages(*device, credentials) && self.made(
                    *device,
                    credentials,
                    now,
                    actor,
                ),
                None => !self.manages(*device, credentials),
            },
    {
        match self {
            PollerFactory::Nothing(f) => f.spawn(device, now),
            PollerFactory::Cast(f) => match f.spawn(device, now) {
                Some(a) => Some(Actor::Session(a)),
                None => None,
            },
            PollerFactory::Zowietek => match spawn_zowietek(device, credentials) {
                Some(p) => Some(Actor::Poller(p)),
                None => None,
            },
        }
    }
}

/// Several factories, asked in order.
pub struct CompositePollerFactory {
    members: Vec<PollerFactory>,
}

/// The first factory that supervises a device.
pub open spec fn first_manager(
    members: Seq<PollerFactory>,
    device: Device,
    credentials: Option<(String, String)>,
    i: int,
) -> bool {
    &&& 0 <= i < members.len()
    &&& members[i].manages(device, credentials)
    &&& forall|j: int| 0 <= j < i ==> !(#[trigger] members[j]).manages(device, credentials)
}

impl CompositePollerFactory {
    /// The factories, in order.
    pub closed spec fn view(self) -> Seq<PollerFactory> {
        self.members@
    }

    /// Every factory is one that its constructors make.
    pub open spec fn wf(self) -> bool {
        forall|i: int| 0 <= i < self@.len() ==> (#[trigger] self@[i]).wf()
    }

    /// Several factories, asked in order.
    pub fn new(members: Vec<PollerFactory>) -> (r: Self)
        ensures
            r@ == members@,
    {
        CompositePollerFactory { members }
    }

    /// The actor that the first factory which supervises a device makes.
    pub fn spawn(&self, device: &Device, credentials: &Option<(String, String)>, now: u64) -> (r:
        Option<Actor>)
        requires
            self.wf(),
        ensures
            match r {
                Some(actor) => exists|i: int|
                    #[trigger] first_manager(self@, *device, *credentials, i) && self@[i].made(
                        *device,
                        *credentials,
                        now,
                        actor,
                    ),
                None => forall|i: int|
                    0 <= i < self@.len() ==> !(#[trigger] self@[i]).manages(*device, *credentials),
            },
    {
        let mut i: usize = 0;
        while i < self.members.len()
            invariant
                self.wf(),
                i <= self.members.len(),
                forall|j: int|
                    0 <= j < i ==> !(#[trigger] self@[j]).manages(*device, *credentials),
            decreases self.members.len() - i,
        {
            assert(self@[i as int].wf());
            let copy = match credentials {
                Some(c) => Some((c.0.clone(), c.1.clone())),
                None => None,
            };
            assert(copy == *credentials);
            if let Some(actor) = self.members[i].spawn(device, copy, now) {
                assert(first_manager(self@, *device, *credentials, i as int));
                return Some(actor);
            }
            i += 1;
        }
        None
    }
}

// ---- The registry ------------------------------------------------------------

/// The devices that are supervised, each by a handle of its actor, and those
/// that were stopped.
pub struct DevicePollerRegistry<H> {
    handles: Table<H>,
    tombstones: Table<bool>,
}

/// The handles, and the ids that were stopped.
pub struct PollersView<H> {
    /// The handle of each device that is supervised.
    pub handles: Map<Seq<char>, H>,
    /// The ids that were stopped.
    pub tombstones: Set<Seq<char>>,
}

impl<H> DevicePollerRegistry<H> {
    /// The handles, and the ids that were stopped.
    pub closed spec fn view(self) -> PollersView<H> {
        PollersView { handles: self.handles@, tombstones: self.tombstones@.dom() }
    }

    /// The registry is one that the operations below can reach.
    pub closed spec fn wf(self) -> bool {
        self.handles.wf() && self.tombstones.wf()
    }

    /// Nothing is supervised, and nothing was stopped.
    pub fn new() -> (r: Self)
        ensures
            r.wf(),
            r@.handles == Map::<Seq<char>, H>::empty(),
            r@.tombstones == Set::<Seq<char>>::empty(),
    {
        let r = DevicePollerRegistry { handles: Table::new(), tombstones: Table::new() };
        assert(r@.tombstones =~= Set::<Seq<char>>::empty());
        r
    }

    /// How many devices are supervised.
    pub fn running_count(&self) -> (r: usize)
        requires
            self.wf(),
        ensures
            r == self@.handles.dom().len(),
            self@.handles.dom().finite(),
    {
        proof {
            self.handles.lemma_len();
        }
        self.handles.len()
    }

    /// Whether a device is supervised.
    pub fn is_running(&self, device_id: &str) -> (r: bool)
        requires
            self.wf(),
        ensures
            r == self@.handles.contains_key(device_id@),
    {
        self.handles.contains(device_id)
    }

    /// Whether a device may be started: it was not stopped.
    pub fn admits(&self, device_id: &str) -> (r: bool)
        requires
            self.wf(),
        ensures
            r == !self@.tombstones.contains(device_id@),
    {
        !self.tombstones.contains(device_id)
    }

    /// Start the supervision of a device with what its factory made. A device
    /// that was stopped is not started; one that is supervised is taken over.
    /// Answers whether it was started, and gives back the handle that has to
    /// be dropped: the one taken over, or the one that came too late.
    pub fn start(&mut self, device_id: &str, spawned: Option<H>) -> (r: (bool, Option<H>))
        requires
            old(self).wf(),
        ensures
            final(self).wf(),
            final(self)@ == started(old(self)@, device_id@, spawned),
            r.0 == (spawned is Some && !old(self)@.tombstones.contains(device_id@)),
            !r.0 ==> r.1 == spawned,
            r.0 ==> r.1 == (if old(self)@.handles.contains_key(device_id@) {
                Some(old(self)@.handles[device_id@])
            } else {
                None
            }),
    {
        if !self.admits(device_id) {
            return (false, spawned);
        }
        match spawned {
            None => (false, None),
            Some(h) => {
                let previous = self.handles.insert(device_id.to_owned(), h);
                (true, previous)
            },
        }
    }

    /// Stop the supervision of a device, and give back its handle. It is not
    /// started again before it is created anew.
    pub fn stop(&mut self, device_id: &str) -> (r: Option<H>)
        requires
            old(self).wf(),
        ensures
            final(self).wf(),
            final(self)@ == stopped(old(self)@, device_id@),
            match r {
                Some(h) => old(self)@.handles.contains_key(device_id@) && h
                    == old(self)@.handles[device_id@],
                None => !old(self)@.handles.contains_key(device_id@),
            },
    {
        self.tombstones.insert(device_id.to_owned(), true);
        assert(self@.tombstones =~= old(self)@.tombstones.insert(device_id@));
        self.handles.remove(device_id)
    }

    /// A device is created anew.
    pub fn clear_tombstone(&mut self, device_id: &str)
        requires
            old(self).wf(),
        ensures
            final(self).wf(),
            final(self)@ == recreated(old(self)@, device_id@),
    {
        self.tombstones.remove(device_id);
        assert(self@.tombstones =~= old(self)@.tombstones.remove(device_id@));
    }

    /// The handle of a device, to hand it a command.
    pub fn handle(&self, device_id: &str) -> (r: Option<&H>)
        requires
            self.wf(),
        ensures
            match r {
                Some(h) => self@.handles.contains_key(device_id@) && *h
                    == self@.handles[device_id@],
                None => !self@.handles.contains_key(device_id@),
            },
    {
        self.handles.get(device_id)
    }
}

// ---- Laws --------------------------------------------------------------------

/// The pollers after a start.
pub open spec fn started<H>(v: PollersView<H>, id: Seq<char>, spawned: Option<H>) -> PollersView<H> {
    match spawned {
        Some(h) => if v.tombstones.contains(id) {
            v
        } else {
            PollersView { handles: v.handles.insert(id, h), ..v }
        },
        None => v,
    }
}

/// The pollers after a stop.
pub open spec fn stopped<H>(v: PollersView<H>, id: Seq<char>) -> PollersView<H> {
    PollersView { handles: v.handles.remove(id), tombstones: v.tombstones.insert(id) }
}

/// The pollers after a device was created anew.
pub open spec fn recreated<H>(v: PollersView<H>, id: Seq<char>) -> PollersView<H> {
    PollersView { tombstones: v.tombstones.remove(id), ..v }
}

/// A start that comes after a stop starts nothing, however often it is tried.
pub proof fn law_stop_wins_over_a_late_start<H>(v: PollersView<H>, id: Seq<char>, spawned: Option<H>)
    ensures
        started(stopped(v, id), id, spawned) == stopped(v, id),
        !started(stopped(v, id), id, spawned).handles.contains_key(id),
{
}

/// Creating a device anew lets it be started again.
pub proof fn law_recreated_device_starts<H>(v: PollersView<H>, id: Seq<char>, handle: H)
    ensures
        started(recreated(stopped(v, id), id), id, Some(handle)).handles.contains_key(id),
        started(recreated(stopped(v, id), id), id, Some(handle)).handles[id] == handle,
{
}

/// Stopping one device leaves the others as they are.
pub proof fn law_stop_touches_one_device<H>(v: PollersView<H>, id: Seq<char>, other: Seq<char>)
    requires
        other != id,
    ensures
        stopped(v, id).handles.contains_key(other) == v.handles.contains_key(other),
        v.handles.contains_key(other) ==> stopped(v, id).handles[other] == v.handles[other],
        stopped(v, id).tombstones.contains(other) == v.tombstones.contains(other),
{
}

/// The host of a management address is what stands between its scheme and its port or
/// path, for a name or an IPv4 literal; an IPv6 literal keeps its brackets.
pub proof fn law_host_is_between_scheme_and_port(
    scheme: Seq<char>,
    host: Seq<char>,
    tail: Seq<char>,
)
    requires
        !scheme.contains(':'),
        !host.contains(':') && !host.contains('/') && !host.contains(']'),
        !tail.contains(':') && !tail.contains('/') && !tail.contains(']'),
    ensures
        host_in(scheme + "://"@ + host) == host,
        host_in(scheme + "://"@ + (host + ":"@ + tail)) == host,
        host_in(scheme + "://"@ + (host + "/"@ + tail)) == host,
        host_in(scheme + "://"@ + ("["@ + host + "]:"@ + tail)) == "["@ + host + "]"@,
{
    reveal_strlit(":");
    reveal_strlit("/");
    reveal_strlit("[");
    reveal_strlit("]");
    reveal_strlit("]:");
    lemma_behind_the_scheme(scheme, host);
    crate::text::lemma_first_index(host, '/');
    crate::text::lemma_last_index(host, ']');
    crate::text::lemma_last_index(host, ':');
    let with_port = host + ":"@ + tail;
    lemma_behind_the_scheme(scheme, with_port);
    crate::text::lemma_first_index(with_port, '/');
    crate::text::lemma_last_index(with_port, ']');
    crate::text::lemma_last_index(with_port, ':');
    assert(with_port[host.len() as int] == ':');
    assert forall|j: int| 0 <= j < with_port.len() implies with_port[j] != '/' && with_port[j]
        != ']' && (j != host.len() ==> with_port[j] != ':') by {
        if j < host.len() {
            assert(with_port[j] == host[j]);
        } else if j > host.len() {
            assert(with_port[j] == tail[j - host.len() - 1]);
        }
    }
    assert(with_port.take(host.len() as int) =~= host);
    let with_path = host + "/"@ + tail;
    lemma_behind_the_scheme(scheme, with_path);
    crate::text::lemma_first_index(with_path, '/');
    assert(with_path[host.len() as int] == '/');
    assert forall|j: int| 0 <= j < host.len() implies with_path[j] != '/' by {
        assert(with_path[j] == host[j]);
    }
    assert(with_path.take(host.len() as int) =~= host);
    let six = "["@ + host + "]:"@ + tail;
    lemma_behind_the_scheme(scheme, six);
    crate::text::lemma_first_index(six, '/');
    crate::text::lemma_last_index(six, ']');
    assert(six[(host.len() + 1) as int] == ']');
    assert forall|j: int| 0 <= j < six.len() implies six[j] != '/' && (j > host.len() + 1 ==> six[j]
        != ']') by {
        if 0 < j <= host.len() {
            assert(six[j] == host[j - 1]);
        } else if j > host.len() + 2 {
            assert(six[j] == tail[j - host.len() - 3]);
        }
    }
    assert(six.take((host.len() + 2) as int) =~= "["@ + host + "]"@);
}

/// What stands behind a scheme is read behind it.
proof fn lemma_behind_the_scheme(scheme: Seq<char>, rest: Seq<char>)
    requires
        !scheme.contains(':'),
    ensures
        without_scheme(scheme + "://"@ + rest) == rest,
{
    reveal_strlit("://");
    let s = scheme + "://"@ + rest;
    let n = scheme.len() as int;
    assert(crate::devices::zowietek::client::scheme_at(s, n));
    assert forall|j: int| 0 <= j < n implies !#[trigger] crate::devices::zowietek::client::scheme_at(
        s,
        j,
    ) by {
        assert(s[j] == scheme[j]);
    }
    assert(first_scheme_at(s, n));
    let i = first_scheme(s);
    assert(first_scheme_at(s, i));
    assert(crate::devices::zowietek::client::scheme_at(s, i));
    assert(i == n) by {
        if i < n {
            assert(!crate::devices::zowietek::client::scheme_at(s, i));
        }
        if n < i {
            assert(!crate::devices::zowietek::client::scheme_at(s, n));
        }
    }
    assert(s.skip(n + 3) =~= rest);
}

/// A device is polled every second. It is tried again after half a second, and at
/// most half a minute, unless its own policy says otherwise.
pub proof fn law_cadence_follows_the_policy(policy: Option<ReconnectPolicy>, config: PollerConfig)
    requires
        cadence_of(policy, config),
    ensures
        config.poll_period@ == 1_000_000_000,
        policy is None ==> config.backoff_base@ == 500_000_000 && config.backoff_max@
            == 30_000_000_000,
        policy is Some ==> config.backoff_base@ == policy->0.initial_ms * 1_000_000
            && config.backoff_max@ == policy->0.max_ms * 1_000_000,
        config.backoff_factor == 2,
{
}

/// A device is polled by its own driver alone, where it has an address and credentials;
/// the poller that is made logs in with those at that host, and starts afresh.
pub proof fn law_poller_is_made_for_the_device(
    device: Device,
    username: String,
    password: String,
    p: ZowietekPoller,
)
    requires
        polls_as(device, Some((username, password)), p),
    ensures
        !polls(device, None),
        !(device.driver is Zowietek) ==> !polls(device, Some((username, password))),
        device.address is None ==> !polls(device, Some((username, password))),
        device.driver is Zowietek && device.address is Some ==> polls(
            device,
            Some((username, password)),
        ),
        p.who().device_id == device.id@,
        p.who().username == username@,
        p.who().password == password@,
        p.who().host == host_in(device.address->0@),
        p@.desired_mode == device.desired_mode,
        p@.session is None,
        p@.lifecycle == crate::devices::state_machine::DeviceState::Adopting,
{
}

/// A started device runs with the handle it was given, in place of any it had.
pub proof fn law_started_device_runs<H>(v: PollersView<H>, id: Seq<char>, h: H, other: Seq<char>)
    requires
        !v.tombstones.contains(id),
        id != other,
    ensures
        started(v, id, Some(h)).handles.contains_key(id),
        started(v, id, Some(h)).handles[id] == h,
        started(v, id, Some(h)).handles.contains_key(other) == v.handles.contains_key(other),
        started(v, id, None) == v,
        !stopped(started(v, id, Some(h)), id).handles.contains_key(id),
{
}

} // verus!
