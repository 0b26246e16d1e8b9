//! The latest status of every managed device.

use vstd::prelude::*;

use crate::devices::state_machine::{DeviceLifecycle, DeviceState};
use crate::devices::sync_runtime::AchievedSync;
use crate::model::clone_opt;
use crate::table::Table;

verus! {

/// What a device can do.
#[derive(Debug, Clone, Copy, PartialEq, Eq, Structural)]
pub struct DeviceCapabilities {
    /// It encodes.
    pub encode: bool,
    /// It decodes.
    pub decode: bool,
    /// It shows a picture.
    pub display: bool,
    /// How closely it can be kept in step with others.
    pub sync: AchievedSync,
    /// It plays sound.
    pub audio: bool,
    /// It can be rebooted.
    pub reboot: bool,
    /// Its firmware can be updated.
    pub firmware_update: bool,
}

/// The status of a device.
#[derive(Debug, PartialEq, Eq)]
pub struct DeviceStatus {
    /// The device.
    pub device_id: String,
    /// Its state.
    pub state: DeviceState,
    /// What it is doing, in its driver's words.
    pub mode: Option<String>,
    /// What it can do, where its driver says so.
    pub capabilities: Option<DeviceCapabilities>,
}

/// The status of a device, its texts as sequences.
pub struct StatusView {
    /// The device.
    pub device_id: Seq<char>,
    /// Its state.
    pub state: DeviceState,
    /// What it is doing.
    pub mode: Option<Seq<char>>,
    /// What it can do.
    pub capabilities: Option<DeviceCapabilities>,
}

/// The status of a device of which only the state is known.
pub open spec fn bare_status(device_id: Seq<char>, state: DeviceState) -> StatusView {
    StatusView { device_id, state, mode: None, capabilities: None }
}

impl DeviceStatus {
    /// The status, its texts as sequences.
    pub open spec fn view(self) -> StatusView {
        StatusView {
            device_id: self.device_id@,
            state: self.state,
            mode: crate::text::text_opt(self.mode),
            capabilities: self.capabilities,
        }
    }

    /// The bare status of a device.
    pub fn new(device_id: &str, state: DeviceState) -> (r: Self)
        ensures
            r@ == bare_status(device_id@, state),
    {
        DeviceStatus { device_id: device_id.to_owned(), state, mode: None, capabilities: None }
    }
}

impl Clone for DeviceStatus {
    fn clone(&self) -> (r: Self)
        ensures
            r == *self,
    {
        DeviceStatus {
            device_id: self.device_id.clone(),
            state: self.state,
            mode: clone_opt(&self.mode),
            capabilities: self.capabilities,
        }
    }
}

/// One device's lifecycle and its latest status.
pub struct DeviceRuntime {
    lifecycle: DeviceLifecycle,
    status: DeviceStatus,
}

/// The latest status of every device.
pub struct DeviceStatusRegistry {
    statuses: Table<DeviceRuntime>,
}

/// The ids of a list of statuses.
pub open spec fn status_ids(list: Seq<DeviceStatus>) -> Seq<Seq<char>> {
    list.map_values(|s: DeviceStatus| s.device_id@)
}

impl DeviceStatusRegistry {
    /// The latest status of each device.
    pub closed spec fn view(self) -> Map<Seq<char>, StatusView> {
        self.statuses@.map_values(|r: DeviceRuntime| r.status@)
    }

    /// Every status stands under its device, and the lifecycle is in the state
    /// that the status says.
    pub closed spec fn wf(self) -> bool {
        &&& self.statuses.wf()
        &&& forall|k: Seq<char>| #[trigger]
            self.statuses@.contains_key(k) ==> self.statuses@[k].status.device_id@ == k
                && self.statuses@[k].lifecycle@ == self.statuses@[k].status.state
    }

    /// Every status stands under its device.
    pub proof fn lemma_wf(self)
        requires
            self.wf(),
        ensures
            forall|k: Seq<char>| #[trigger] self@.contains_key(k) ==> self@[k].device_id == k,
    {
    }

    /// No device.
    pub fn new() -> (r: Self)
        ensures
            r.wf(),
            r@ == Map::<Seq<char>, StatusView>::empty(),
    {
        let r = DeviceStatusRegistry { statuses: Table::new() };
        assert(r@ =~= Map::<Seq<char>, StatusView>::empty());
        r
    }

    /// A device was adopted. One that is already known keeps its status.
    pub fn ensure(&mut self, device_id: &str)
        requires
            old(self).wf(),
        ensures
            final(self).wf(),
            final(self)@ == if old(self)@.contains_key(device_id@) {
                old(self)@
            } else {
                old(self)@.insert(device_id@, bare_status(device_id@, DeviceState::Adopting))
            },
    {
        if !self.statuses.contains(device_id) {
            let lifecycle = DeviceLifecycle::new();
            let status = DeviceStatus::new(device_id, lifecycle.state());
            self.statuses.insert(device_id.to_owned(), DeviceRuntime { lifecycle, status });
            assert(self@ =~= old(self)@.insert(
                device_id@,
                bare_status(device_id@, DeviceState::Adopting),
            ));
        }
    }

    /// A device was removed.
    pub fn forget(&mut self, device_id: &str)
        requires
            old(self).wf(),
        ensures
            final(self).wf(),
            final(self)@ == old(self)@.remove(device_id@),
    {
        self.statuses.remove(device_id);
        assert(self@ =~= old(self)@.remove(device_id@));
    }

    /// The latest status of a device. It replaces the one before.
    pub fn set_status(&mut self, status: DeviceStatus)
        requires
            old(self).wf(),
        ensures
            final(self).wf(),
            final(self)@ == old(self)@.insert(status.device_id@, status@),
    {
        let lifecycle = DeviceLifecycle::in_state(status.state);
        let id = status.device_id.clone();
        self.statuses.insert(id, DeviceRuntime { lifecycle, status });
        assert(self@ =~= old(self)@.insert(status.device_id@, status@));
    }

    /// The latest status of a device.
    pub fn snapshot(&self, device_id: &str) -> (r: Option<DeviceStatus>)
        requires
            self.wf(),
        ensures
            match r {
                Some(s) => self@.contains_key(device_id@) && s@ == self@[device_id@],
                None => !self@.contains_key(device_id@),
            },
    {
        match self.statuses.get(device_id) {
            Some(r) => Some(r.status.clone()),
            None => None,
        }
    }

    /// The state of a device.
    pub fn state(&self, device_id: &str) -> (r: Option<DeviceState>)
        requires
            self.wf(),
        ensures
            match r {
                Some(s) => self@.contains_key(device_id@) && s == self@[device_id@].state,
                None => !self@.contains_key(device_id@),
            },
    {
        match self.statuses.get(device_id) {
            Some(r) => Some(r.lifecycle.state()),
            None => None,
        }
    }

    /// The latest status of every device, in id order.
    pub fn snapshot_all(&self) -> (r: Vec<DeviceStatus>)
        requires
            self.wf(),
        ensures
            crate::table::strictly_sorted(status_ids(r@)),
            forall|k: Seq<char>| status_ids(r@).contains(k) <==> self@.contains_key(k),
            forall|i: int|
                0 <= i < r@.len() ==> (#[trigger] r@[i])@ == self@[r@[i].device_id@],
    {
        let mut out: Vec<DeviceStatus> = Vec::new();
        let mut i: usize = 0;
        proof {
            self.statuses.lemma_rows();
        }
        while i < self.statuses.len()
            invariant
                self.wf(),
                i <= self.statuses.keys().len(),
                self.statuses.keys().len() == self.statuses.values().len(),
                forall|j: int|
                    0 <= j < self.statuses.keys().len() ==> self.statuses@.contains_key(
                        #[trigger] self.statuses.keys()[j],
                    ) && self.statuses@[self.statuses.keys()[j]] == self.statuses.values()[j],
                status_ids(out@) == self.statuses.keys().take(i as int),
                forall|j: int|
                    0 <= j < out@.len() ==> (#[trigger] out@[j])@ == self@[out@[j].device_id@],
            decreases self.statuses.keys().len() - i,
        {
            let ghost before = out@;
            let s = self.statuses.value_at(i).status.clone();
            assert(self.statuses@.contains_key(self.statuses.keys()[i as int]));
            out.push(s);
            assert(status_ids(out@) =~= status_ids(before).push(s.device_id@));
            assert(self.statuses.keys().take(i + 1) =~= self.statuses.keys().take(i as int).push(
                self.statuses.keys()[i as int],
            ));
            i += 1;
        }
        assert(self.statuses.keys().take(i as int) =~= self.statuses.keys());
        out
    }
}

impl Default for DeviceStatusRegistry {
    fn default() -> (r: Self)
        ensures
            r.wf(),
            r@ == Map::<Seq<char>, StatusView>::empty(),
    {
        DeviceStatusRegistry::new()
    }
}

/// A status that only says where a device stands says nothing of its mode and its
/// capabilities.
pub proof fn law_bare_status_says_the_state(device_id: Seq<char>, state: DeviceState)
    ensures
        bare_status(device_id, state).device_id == device_id,
        bare_status(device_id, state).state == state,
        bare_status(device_id, state).mode is None,
        bare_status(device_id, state).capabilities is None,
{
}

} // verus!
