//! The relay node's state: its fixed resource limits and the one piece of
//! application logic it has — advertising as its own external address
//! whatever observed address the identify protocol last reported, so peers
//! can hole-punch toward it.

use vstd::prelude::*;

verus! {

/// The port the relay listens on, for both stream and datagram transports.
pub const RELAY_PORT: u16 = 40142;

/// Circuits are not limited by bytes carried.
pub const MAX_CIRCUIT_BYTES: u64 = 0xFFFF_FFFF_FFFF_FFFF;

/// Circuits and reservations last practically forever, in seconds.
pub const MAX_CIRCUIT_DURATION_SECS: u64 = 0xFFFF_FFFF;

/// An event the relay's event loop reacts to.
pub enum RelayEvent {
    /// The identify protocol reported the address a peer observed us at;
    /// the bytes are the address's wire form.
    IdentifyReceived { observed_addr: Vec<u8> },
    /// A listener came up on this address.
    NewListenAddr { addr: Vec<u8> },
    /// Anything else.
    Other,
}

/// Mathematical image of a [`RelayEvent`].
pub ghost enum RelayEventModel {
    IdentifyReceived(Seq<u8>),
    NewListenAddr(Seq<u8>),
    Other,
}

impl View for RelayEvent {
    type V = RelayEventModel;

    open spec fn view(&self) -> RelayEventModel {
        match *self {
            RelayEvent::IdentifyReceived { ref observed_addr } => RelayEventModel::IdentifyReceived(
                observed_addr@,
            ),
            RelayEvent::NewListenAddr { ref addr } => RelayEventModel::NewListenAddr(addr@),
            RelayEvent::Other => RelayEventModel::Other,
        }
    }
}

/// What the relay does for one event.
pub enum RelayStep {
    /// Advertise this address as our external address.
    AddExternalAddress(Vec<u8>),
    /// Report the new listen address.
    LogListenAddress(Vec<u8>),
    /// Nothing.
    Ignore,
}

/// The advertised address after one event.
pub open spec fn relay_next(adv: Option<Seq<u8>>, e: RelayEventModel) -> Option<Seq<u8>> {
    match e {
        RelayEventModel::IdentifyReceived(a) => Option::Some(a),
        _ => adv,
    }
}

/// The advertised address after a whole event sequence.
pub open spec fn relay_run(adv: Option<Seq<u8>>, events: Seq<RelayEventModel>) -> Option<Seq<u8>>
    decreases events.len(),
{
    if events.len() == 0 {
        adv
    } else {
        relay_run(relay_next(adv, events[0]), events.drop_first())
    }
}

/// The observed address carried by the last identify event, if any.
pub open spec fn last_observed_addr(events: Seq<RelayEventModel>) -> Option<Seq<u8>>
    decreases events.len(),
{
    if events.len() == 0 {
        Option::None
    } else {
        match last_observed_addr(events.drop_first()) {
            Option::Some(a) => Option::Some(a),
            Option::None => match events[0] {
                RelayEventModel::IdentifyReceived(a) => Option::Some(a),
                _ => Option::None,
            },
        }
    }
}

/// The relay's advertised external address always equals the observed
/// address last received via identify (or stays unset until the first one).
pub proof fn lemma_advertised_is_last_observed(
    adv: Option<Seq<u8>>,
    events: Seq<RelayEventModel>,
)
    ensures
        relay_run(adv, events) == match last_observed_addr(events) {
            Option::Some(a) => Option::Some(a),
            Option::None => adv,
        },
    decreases events.len(),
{
    if events.len() > 0 {
        lemma_advertised_is_last_observed(relay_next(adv, events[0]), events.drop_first());
    }
}

/// The relay's application state: the external address it advertises.
pub struct RelayNode {
    advertised: Option<Vec<u8>>,
}

impl RelayNode {
    pub closed spec fn advertised_model(self) -> Option<Seq<u8>> {
        match self.advertised {
            Option::Some(a) => Option::Some(a@),
            Option::None => Option::None,
        }
    }

    pub fn new() -> (r: RelayNode)
        ensures
            r.advertised_model() is None,
    {
        RelayNode { advertised: Option::None }
    }

    /// Handles one event: an identify report replaces the advertised
    /// external address; everything else leaves it alone.
    pub fn handle(&mut self, event: RelayEvent) -> (r: RelayStep)
        ensures
            final(self).advertised_model() == relay_next(old(self).advertised_model(), event@),
            match event@ {
                RelayEventModel::IdentifyReceived(a) => r matches RelayStep::AddExternalAddress(
                    out,
                ) && out@ == a,
                RelayEventModel::NewListenAddr(a) => r matches RelayStep::LogListenAddress(out)
                    && out@ == a,
                RelayEventModel::Other => r is Ignore,
            },
    {
        match event {
            RelayEvent::IdentifyReceived { observed_addr } => {
                let out = vstd::slice::slice_to_vec(observed_addr.as_slice());
                self.advertised = Option::Some(observed_addr);
                RelayStep::AddExternalAddress(out)
            },
            RelayEvent::NewListenAddr { addr } => RelayStep::LogListenAddress(addr),
            RelayEvent::Other => RelayStep::Ignore,
        }
    }
}

} // verus!
