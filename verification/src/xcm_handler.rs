//! The decisions of the cross-chain message handler: where an outbound
//! message goes, and what becomes of an inbound one.

use vstd::prelude::*;

verus! {

pub type ParaId = u32;

/// One step of a location, as far as routing reads it.
#[derive(Debug, PartialEq, Eq, Structural)]
pub enum Junction {
    /// The relay chain above.
    Parent,
    /// A parachain, by its id.
    Parachain { id: ParaId },
    /// Any other step.
    Other,
}

/// Where a message comes from.
#[derive(Debug, PartialEq, Eq, Structural)]
pub enum Origin {
    /// It comes from the (parent) relay chain.
    Relay,
    /// It comes from a (sibling) parachain.
    SiblingParachain(ParaId),
}

impl From<ParaId> for Origin {
    fn from(id: ParaId) -> (origin: Origin) {
        Origin::SiblingParachain(id)
    }
}

impl vstd::std_specs::convert::FromSpecImpl<ParaId> for Origin {
    open spec fn obeys_from_spec() -> bool {
        true
    }

    open spec fn from_spec(id: ParaId) -> Origin {
        Origin::SiblingParachain(id)
    }
}

/// What to do with an outbound message.
#[derive(Debug, PartialEq, Eq, Structural)]
pub enum Route {
    /// Send it upward, to the relay chain.
    Upward,
    /// Send it sideways, to a sibling parachain.
    Hrmp { recipient: ParaId },
    /// Nobody handles this destination.
    Unhandled,
}

/// The route to `destination`: upward where it is the parent and nothing
/// else; to a sibling where it starts with a parachain; none otherwise.
pub open spec fn route_of(destination: Seq<Junction>) -> Route {
    if destination.len() == 0 {
        Route::Unhandled
    } else {
        match destination[0] {
            Junction::Parent => if destination.len() == 1 {
                Route::Upward
            } else {
                Route::Unhandled
            },
            Junction::Parachain { id } => Route::Hrmp { recipient: id },
            Junction::Other => Route::Unhandled,
        }
    }
}

/// Chooses the route of an outbound message to `destination`.
pub fn route(destination: &Vec<Junction>) -> (route: Route)
    ensures
        route == route_of(destination@),
{
    if destination.len() == 0 {
        return Route::Unhandled;
    }
    match &destination[0] {
        Junction::Parent => {
            if destination.len() == 1 {
                Route::Upward
            } else {
                Route::Unhandled
            }
        },
        Junction::Parachain { id } => Route::Hrmp { recipient: *id },
        Junction::Other => Route::Unhandled,
    }
}

/// How the decoding of an inbound message ended.
#[derive(Debug, PartialEq, Eq, Structural)]
pub enum Decoded {
    /// The bytes hold a message of a known version.
    Message,
    /// The bytes hold a message of a version that is not understood.
    BadVersion,
    /// The bytes hold no message.
    BadFormat,
}

/// What becomes of an inbound message.
#[derive(Debug, PartialEq, Eq, Structural)]
pub enum Inbound {
    /// Execute it, as coming from `origin`.
    Execute { origin: Junction },
    /// Report that its version is not understood.
    ReportBadVersion,
    /// Report that it could not be decoded.
    ReportBadFormat,
}

/// What becomes of an inbound message from `origin`, given how its decoding
/// ended.
pub open spec fn inbound_of(origin: Junction, decoded: Decoded) -> Inbound {
    match decoded {
        Decoded::Message => Inbound::Execute { origin },
        Decoded::BadVersion => Inbound::ReportBadVersion,
        Decoded::BadFormat => Inbound::ReportBadFormat,
    }
}

/// Decides on a message that came down from the relay chain.
pub fn handle_downward_message(decoded: Decoded) -> (inbound: Inbound)
    ensures
        inbound == inbound_of(Junction::Parent, decoded),
{
    match decoded {
        Decoded::Message => Inbound::Execute { origin: Junction::Parent },
        Decoded::BadVersion => Inbound::ReportBadVersion,
        Decoded::BadFormat => Inbound::ReportBadFormat,
    }
}

/// Decides on a message that came from the sibling parachain `sender`.
pub fn handle_hrmp_message(sender: ParaId, decoded: Decoded) -> (inbound: Inbound)
    ensures
        inbound == inbound_of(Junction::Parachain { id: sender }, decoded),
{
    match decoded {
        Decoded::Message => Inbound::Execute { origin: Junction::Parachain { id: sender } },
        Decoded::BadVersion => Inbound::ReportBadVersion,
        Decoded::BadFormat => Inbound::ReportBadFormat,
    }
}

} // verus!
