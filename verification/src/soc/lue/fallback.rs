//! Routing by EtherType alone, for frames no rule decides.

use vstd::prelude::*;

use super::engine::ETHERNET_HEADER_LEN;

verus! {

/// The EtherTypes the control path answers to.
#[derive(Clone, Copy, Debug, PartialEq, Eq, Structural)]
pub enum EtherType {
    MacControl,
    SlowProtocol,
}

impl EtherType {
    pub open spec fn value(self) -> u16 {
        match self {
            EtherType::MacControl => 0x8808,
            EtherType::SlowProtocol => 0x8809,
        }
    }

    pub fn as_u16(self) -> (r: u16)
        ensures
            r == self.value(),
    {
        match self {
            EtherType::MacControl => 0x8808,
            EtherType::SlowProtocol => 0x8809,
        }
    }
}

/// Which queue a frame goes to.
#[derive(Clone, Copy, Debug, PartialEq, Eq, Structural)]
pub enum Slot {
    Control,
    Data,
}

/// The queue of a frame: control for the two control EtherTypes, data for
/// everything else, a frame too short to have a type included.
pub open spec fn slot_of(frame: Seq<u8>) -> Slot {
    if frame.len() >= ETHERNET_HEADER_LEN && (crate::soc::lue::engine::ethertype(frame)
        == EtherType::MacControl.value() || crate::soc::lue::engine::ethertype(frame)
        == EtherType::SlowProtocol.value()) {
        Slot::Control
    } else {
        Slot::Data
    }
}

impl Slot {
    pub fn for_frame(frame: &[u8]) -> (r: Slot)
        ensures
            r == slot_of(frame@),
    {
        if frame.len() < ETHERNET_HEADER_LEN {
            return Slot::Data;
        }
        let et: u16 = ((frame[12] as u16) << 8) | frame[13] as u16;
        if et == EtherType::MacControl.as_u16() || et == EtherType::SlowProtocol.as_u16() {
            Slot::Control
        } else {
            Slot::Data
        }
    }
}

/// A frame goes to the control queue exactly where its two type octets, the
/// thirteenth and the fourteenth, are 88 08 or 88 09.
pub proof fn law_control_frames_by_their_type(frame: Seq<u8>)
    ensures
        slot_of(frame) == Slot::Control <==> frame.len() >= 14 && frame[12] == 0x88 && (frame[13]
            == 0x08 || frame[13] == 0x09),
        slot_of(frame) == Slot::Control || slot_of(frame) == Slot::Data,
{
    crate::bits::lemma_octets(frame[12], frame[13], 0, 0, 0);
}

} // verus!
