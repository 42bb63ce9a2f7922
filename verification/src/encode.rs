use vstd::prelude::*;

use crate::decoded::Decoded;

verus! {

/// The byte sequences of a sequence of packets.
pub open spec fn packets_view(s: Seq<[u8; 31]>) -> Seq<Seq<u8>> {
    s.map_values(|p: [u8; 31]| p@)
}

/// A one-shot packet source that yields a single 31-byte wire packet.
///
/// Used as the [`IntoPackets::Iter`] type for all single-packet InfoFrame
/// types (AVI, Audio, HDR Static Metadata, HDMI Forum VSI). Its view is the
/// sequence of packets still to be yielded.
pub struct SinglePacketIter(Option<[u8; 31]>);

impl View for SinglePacketIter {
    type V = Seq<[u8; 31]>;

    closed spec fn view(&self) -> Seq<[u8; 31]> {
        match self.0 {
            Some(p) => seq![p],
            None => Seq::empty(),
        }
    }
}

impl SinglePacketIter {
    /// A source that yields `packet` once.
    pub fn new(packet: [u8; 31]) -> (it: Self)
        ensures
            it@ == seq![packet],
    {
        SinglePacketIter(Some(packet))
    }

    /// Yield the next packet, if any.
    pub fn next(&mut self) -> (r: Option<[u8; 31]>)
        ensures
            old(self)@.len() == 0 ==> r is None && final(self)@ == old(self)@,
            old(self)@.len() > 0 ==> r == Some(old(self)@[0]) && final(self)@ == old(self)@.drop_first(),
    {
        let r = self.0.take();
        proof {
            if old(self)@.len() > 0 {
                assert(self@ =~= old(self)@.drop_first());
            }
        }
        r
    }

    /// Collect every packet still to be yielded, in order.
    pub fn collect_packets(self) -> (v: Vec<[u8; 31]>)
        ensures
            v@ == self@,
    {
        let mut v = Vec::new();
        match self.0 {
            Some(p) => {
                v.push(p);
            },
            None => {},
        }
        assert(v@ =~= self@);
        v
    }
}

/// Yields one or more 31-byte wire packets representing an InfoFrame.
///
/// Traditional InfoFrame types (AVI, Audio, HDR Static Metadata, HDMI Forum VSI)
/// yield exactly one packet. Dynamic HDR yields as many packets as the metadata
/// payload requires.
///
/// Like the decode path, `into_packets` returns a [`Decoded`] that pairs the
/// packet source with any warnings produced during encoding. Each implementation
/// states in its contract exactly which packets its source yields, and in
/// [`can_encode`](IntoPackets::can_encode) which frames it can encode.
pub trait IntoPackets: Sized {
    /// The packet source type.
    type Iter;
    /// The warning type produced during encoding.
    type Warning;

    /// The frame can be encoded: its tables fit their slots and its packets
    /// fit the sequence numbering.
    spec fn can_encode(&self) -> bool;

    /// Consume the frame and return a [`Decoded`] containing the packet
    /// source and any encode-time warnings.
    fn into_packets(self) -> Decoded<Self::Iter, Self::Warning>
        requires
            self.can_encode(),
    ;
}

} // verus!
