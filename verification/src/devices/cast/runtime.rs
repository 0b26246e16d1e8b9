//! Which devices get a cast session, and what it shows.

use vstd::prelude::*;

use crate::devices::broadcaster::DeviceDriver;
use crate::devices::cast::media::{split_authority, CastDelivery};
use crate::devices::cast::session::{CastSessionActor, CastSessionConfig};
use crate::devices::zowietek::runtime::Device;

verus! {

/// Makes the sessions of cast devices.
pub struct CastSessionFactory {
    delivery: CastDelivery,
    config: CastSessionConfig,
}

/// A device gets a session: it is a cast device with a well-formed authority,
/// and shows something that is served.
pub open spec fn casts(
    delivery: crate::devices::cast::media::DeliveryView,
    device: Device,
) -> Option<crate::devices::cast::media::CastMediaTarget> {
    if !(device.driver is Cast) {
        None
    } else {
        match (device.address, device.assign) {
            (Some(address), Some(assign)) => if crate::devices::cast::media::authority_of(
                address@,
            ) is None {
                None
            } else {
                crate::devices::cast::media::assigned(delivery, assign)
            },
            _ => None,
        }
    }
}

impl CastSessionFactory {
    /// What can be shown.
    pub closed spec fn serves(self) -> crate::devices::cast::media::DeliveryView {
        self.delivery@
    }

    /// The cadence of the sessions.
    pub closed spec fn cadence(self) -> CastSessionConfig {
        self.config
    }

    /// The factory was made of a well-formed delivery.
    pub closed spec fn wf(self) -> bool {
        self.delivery.wf()
    }

    /// A factory for what can be shown.
    pub fn new(delivery: CastDelivery, config: CastSessionConfig) -> (r: Self)
        requires
            delivery.wf(),
        ensures
            r.wf(),
            r.serves() == delivery@,
            r.cadence() == config,
    {
        CastSessionFactory { delivery, config }
    }

    /// The session of a device, where it gets one.
    pub fn spawn(&self, device: &Device, now: u64) -> (r: Option<CastSessionActor>)
        requires
            self.wf(),
        ensures
            match r {
                Some(actor) => casts(self.serves(), *device) is Some && actor.plays() == casts(
                    self.serves(),
                    *device,
                )->0 && actor.device() == device.id@ && actor.dials() == device.address->0@
                    && actor.cadence() == self.cadence() && actor@
                    == crate::devices::cast::session::fresh(now),
                None => casts(self.serves(), *device) is None,
            },
    {
        match &device.driver {
            DeviceDriver::Cast => {},
            _ => {
                return None;
            },
        }
        let address = match &device.address {
            Some(a) => a.as_str(),
            None => {
                return None;
            },
        };
        let assign = match &device.assign {
            Some(a) => a,
            None => {
                return None;
            },
        };
        if split_authority(address).is_none() {
            return None;
        }
        match self.delivery.resolve_assign(assign) {
            None => None,
            Some(target) => Some(
                CastSessionActor::new(device.id.as_str(), address, target.clone(), self.config, now),
            ),
        }
    }
}

/// A session is run for a cast device that can be dialled and is assigned something
/// that can be played, and for no other.
pub proof fn law_session_needs_address_and_rendition(
    delivery: crate::devices::cast::media::DeliveryView,
    device: Device,
    t: crate::devices::cast::media::CastMediaTarget,
)
    ensures
        casts(delivery, device) == Some(t) <==> {
            &&& device.driver is Cast
            &&& device.address is Some
            &&& crate::devices::cast::media::authority_of(device.address->0@) is Some
            &&& device.assign is Some
            &&& crate::devices::cast::media::assigned(delivery, device.assign->0) == Some(t)
        },
{
}

} // verus!
