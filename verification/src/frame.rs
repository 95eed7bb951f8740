//! Properties of frames that decide how a packet is acknowledged and
//! whether it probes a path.

use vstd::prelude::*;

verus! {

/// Whether a frame, or a packet, elicits an acknowledgement.
#[derive(Clone, Copy, Debug, PartialEq, Eq, Structural)]
pub enum AckElicitation {
    NonEliciting,
    Eliciting,
}

impl Default for AckElicitation {
    fn default() -> (r: Self)
        ensures
            r == AckElicitation::NonEliciting,
    {
        AckElicitation::NonEliciting
    }
}

impl AckElicitation {
    /// A packet elicits an acknowledgement when any of its frames does.
    pub open spec fn combine_spec(self, other: AckElicitation) -> AckElicitation {
        if self == AckElicitation::Eliciting || other == AckElicitation::Eliciting {
            AckElicitation::Eliciting
        } else {
            AckElicitation::NonEliciting
        }
    }
    /// Returns `true` if this elicits an acknowledgement.
    pub fn is_ack_eliciting(&self) -> (r: bool)
        ensures
            r == (*self == AckElicitation::Eliciting),
    {
        match self {
            AckElicitation::Eliciting => true,
            AckElicitation::NonEliciting => false,
        }
    }

    /// A packet elicits an acknowledgement when any of its frames does.
    pub fn combine(self, other: AckElicitation) -> (r: AckElicitation)
        ensures
            r == self.combine_spec(other),
    {
        match (self, other) {
            (AckElicitation::NonEliciting, AckElicitation::NonEliciting) => {
                AckElicitation::NonEliciting
            },
            _ => AckElicitation::Eliciting,
        }
    }
}

/// Whether a frame, or a packet, only probes a path.
#[derive(Clone, Copy, Debug, PartialEq, Eq, Structural)]
pub enum Probe {
    Probing,
    NonProbing,
}

impl Default for Probe {
    fn default() -> (r: Self)
        ensures
            r == Probe::Probing,
    {
        Probe::Probing
    }
}

impl Probe {
    /// A packet probes only when all of its frames do.
    pub open spec fn combine_spec(self, other: Probe) -> Probe {
        if self == Probe::Probing && other == Probe::Probing {
            Probe::Probing
        } else {
            Probe::NonProbing
        }
    }
    /// A packet probes only when all of its frames do.
    pub fn combine(self, other: Probe) -> (r: Probe)
        ensures
            r == self.combine_spec(other),
    {
        match (self, other) {
            (Probe::Probing, Probe::Probing) => Probe::Probing,
            _ => Probe::NonProbing,
        }
    }
}

} // verus!
