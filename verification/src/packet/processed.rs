//! What processing a packet's frames found.

use crate::frame::{AckElicitation, Probe};
use crate::inet::{DatagramInfo, ExplicitCongestionNotification};
use crate::packet::number::PacketNumber;
use vstd::prelude::*;

verus! {

/// Tracks information about a packet that has been processed.
#[derive(Clone, Copy, Debug)]
pub struct Outcome<'a> {
    pub packet_number: PacketNumber,
    pub datagram: &'a DatagramInfo,
    pub ack_elicitation: AckElicitation,
    pub path_challenge_on_active_path: bool,
    pub frames: usize,
    pub path_validation_probing: Probe,
    pub bytes_progressed: usize,
}

impl<'a> Outcome<'a> {
    /// A tracker for a packet whose frames are not processed yet.
    #[inline]
    pub fn new(packet_number: PacketNumber, datagram: &'a DatagramInfo) -> (r: Self)
        ensures
            r.packet_number == packet_number,
            r.datagram == datagram,
            r.ack_elicitation == AckElicitation::NonEliciting,
            !r.path_challenge_on_active_path,
            r.frames == 0,
            r.path_validation_probing == Probe::Probing,
            r.bytes_progressed == 0,
    {
        Self {
            packet_number,
            datagram,
            ack_elicitation: AckElicitation::default(),
            path_challenge_on_active_path: false,
            frames: 0,
            path_validation_probing: Probe::default(),
            bytes_progressed: 0,
        }
    }

    /// Records a processed frame, given whether it elicits an acknowledgement
    /// and whether it only probes the path.
    ///
    /// The frame count must not overflow (a panic in debug builds).
    #[inline]
    pub fn on_processed_frame(&mut self, ack_elicitation: AckElicitation, path_validation: Probe)
        requires
            old(self).frames < usize::MAX,
        ensures
            final(self).ack_elicitation == old(self).ack_elicitation.combine_spec(ack_elicitation),
            final(self).frames == old(self).frames + 1,
            final(self).path_validation_probing == old(self).path_validation_probing.combine_spec(
                path_validation,
            ),
            final(self).packet_number == old(self).packet_number,
            final(self).datagram == old(self).datagram,
            final(self).path_challenge_on_active_path == old(self).path_challenge_on_active_path,
            final(self).bytes_progressed == old(self).bytes_progressed,
    {
        self.ack_elicitation = self.ack_elicitation.combine(ack_elicitation);
        self.frames = self.frames + 1;
        self.path_validation_probing = self.path_validation_probing.combine(path_validation);
    }

    /// The packet's number.
    #[inline]
    pub fn packet_number(&self) -> (r: PacketNumber)
        ensures
            r == self.packet_number,
    {
        self.packet_number
    }

    /// The ECN codepoint of the datagram the packet came in.
    #[inline]
    pub fn ecn(&self) -> (r: ExplicitCongestionNotification)
        ensures
            r == self.datagram.ecn,
    {
        self.datagram.ecn
    }

    /// Whether the packet carried a path challenge on the active path.
    #[inline]
    pub fn path_challenge_on_active_path(&self) -> (r: bool)
        ensures
            r == self.path_challenge_on_active_path,
    {
        self.path_challenge_on_active_path
    }

    /// Whether the packet elicits an acknowledgement.
    #[inline]
    pub fn is_ack_eliciting(&self) -> (r: bool)
        ensures
            r == (self.ack_elicitation == AckElicitation::Eliciting),
    {
        self.ack_elicitation.is_ack_eliciting()
    }

    /// When the datagram the packet came in was received.
    #[inline]
    pub fn timestamp(&self) -> (r: u64)
        ensures
            r == self.datagram.timestamp,
    {
        self.datagram.timestamp
    }
}

} // verus!
