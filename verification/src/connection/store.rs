use vstd::prelude::*;
use crate::packet::error::MqttError;
use crate::packet::generic::{GenericStorePacket, ResponsePacket};
use crate::packet::packet_id::IsPacketId;

verus! {

/// Key of a stored packet: the response that completes it and its packet
/// identifier.
pub open spec fn store_key<P: IsPacketId>(p: GenericStorePacket<P>) -> (ResponsePacket, nat) {
    (p.spec_response(), p.spec_packet_id().spec_value())
}

/// Packets kept for retransmission, in the order they were stored; no two
/// have the same key.
#[derive(Debug)]
pub struct GenericStore<PacketIdType: IsPacketId> {
    packets: Vec<GenericStorePacket<PacketIdType>>,
}

/// A store with `u16` packet identifiers.
pub type Store = GenericStore<u16>;

impl<PacketIdType: IsPacketId> View for GenericStore<PacketIdType> {
    type V = Seq<(ResponsePacket, nat)>;

    closed spec fn view(&self) -> Seq<(ResponsePacket, nat)> {
        self.packets@.map_values(|p: GenericStorePacket<PacketIdType>| store_key(p))
    }
}

impl<PacketIdType: IsPacketId> GenericStore<PacketIdType> {
    /// The stored packets, in the order they were stored.
    pub closed spec fn spec_packets(&self) -> Seq<GenericStorePacket<PacketIdType>> {
        self.packets@
    }

    #[verifier::type_invariant]
    closed spec fn inv(self) -> bool {
        &&& forall|i: int| 0 <= i < self.packets@.len() ==> (#[trigger] self.packets@[i]).wf()
        &&& self@.no_duplicates()
    }

    /// An empty store.
    pub fn new() -> (r: Self)
        ensures
            r@ == Seq::<(ResponsePacket, nat)>::empty(),
    {
        let r = GenericStore { packets: Vec::new() };
        assert(r@ =~= Seq::<(ResponsePacket, nat)>::empty());
        r
    }

    fn find(&self, response: ResponsePacket, packet_id: u32) -> (r: Option<usize>)
        ensures
            r matches Some(i) ==> i < self@.len() && self@[i as int] == (response, packet_id as nat),
            r is None ==> !self@.contains((response, packet_id as nat)),
    {
        proof { use_type_invariant(self); }
        let mut i: usize = 0;
        while i < self.packets.len()
            invariant
                i <= self.packets@.len(),
                forall|k: int| 0 <= k < self.packets@.len() ==> (#[trigger] self.packets@[k]).wf(),
                forall|k: int| 0 <= k < i ==> self@[k] != (response, packet_id as nat),
            decreases self.packets@.len() - i,
        {
            let p = &self.packets[i];
            if p.response_packet() == response && p.packet_id().value() == packet_id {
                return Some(i);
            }
            i = i + 1;
        }
        None
    }

    /// Adds a packet: `PacketIdentifierConflict` when one with the same key
    /// is stored already.
    pub fn add(&mut self, packet: GenericStorePacket<PacketIdType>) -> (r: Result<(), MqttError>)
        requires
            packet.wf(),
        ensures
            old(self)@.contains(store_key(packet)) ==> r == Err::<(), MqttError>(MqttError::PacketIdentifierConflict)
                && final(self)@ == old(self)@ && final(self).spec_packets() == old(self).spec_packets(),
            !old(self)@.contains(store_key(packet)) ==> r is Ok && final(self)@ == old(self)@.push(store_key(packet))
                && final(self).spec_packets() == old(self).spec_packets().push(packet),
    {
        proof { use_type_invariant(&*self); }
        let response = packet.response_packet();
        let id = packet.packet_id().value();
        if self.find(response, id).is_some() {
            return Err(MqttError::PacketIdentifierConflict);
        }
        let ghost before = self@;
        let mut packets: Vec<GenericStorePacket<PacketIdType>> = Vec::new();
        std::mem::swap(&mut packets, &mut self.packets);
        let ghost old_packets = packets@;
        packets.push(packet);
        proof {
            let v = packets@.map_values(|p: GenericStorePacket<PacketIdType>| store_key(p));
            assert(v =~= before.push(store_key(packet)));
            assert forall|i: int, j: int| 0 <= i < j < v.len() implies v[i] != v[j] by {
                if j == v.len() - 1 {
                    assert(v[i] == before[i]);
                    if v[i] == v[j] {
                        assert(before.contains(store_key(packet)));
                    }
                } else {
                    assert(v[i] == before[i] && v[j] == before[j]);
                }
            }
            assert forall|i: int| 0 <= i < packets@.len() implies (#[trigger] packets@[i]).wf() by {
                if i < old_packets.len() {
                    assert(packets@[i] == old_packets[i]);
                }
            }
        }
        self.packets = packets;
        Ok(())
    }

    /// Removes the packet with key (`response`, `packet_id`); whether there was one.
    pub fn erase(&mut self, response: ResponsePacket, packet_id: u32) -> (r: bool)
        ensures
            r == old(self)@.contains((response, packet_id as nat)),
            !final(self)@.contains((response, packet_id as nat)),
            forall|k: (ResponsePacket, nat)| k != (response, packet_id as nat) ==> (final(self)@.contains(k)
                <==> old(self)@.contains(k)),
    {
        proof { use_type_invariant(&*self); }
        match self.find(response, packet_id) {
            None => false,
            Some(i) => {
                let ghost before = self@;
                let mut packets: Vec<GenericStorePacket<PacketIdType>> = Vec::new();
                std::mem::swap(&mut packets, &mut self.packets);
                let ghost old_packets = packets@;
                let _ = packets.remove(i);
                proof {
                    let v = packets@.map_values(|p: GenericStorePacket<PacketIdType>| store_key(p));
                    assert(v =~= before.remove(i as int));
                    assert forall|a: int, b: int| 0 <= a < b < v.len() implies v[a] != v[b] by {
                        let a0 = if a < i { a } else { a + 1 };
                        let b0 = if b < i { b } else { b + 1 };
                        assert(v[a] == before[a0] && v[b] == before[b0]);
                    }
                    assert forall|k: int| 0 <= k < packets@.len() implies (#[trigger] packets@[k]).wf() by {
                        let k0 = if k < i { k } else { k + 1 };
                        assert(packets@[k] == old_packets[k0]);
                    }
                    assert forall|k: (ResponsePacket, nat)| v.contains(k) <==> (before.contains(k) && k != (response, packet_id as nat)) by {
                        if v.contains(k) {
                            let j = choose|j: int| 0 <= j < v.len() && v[j] == k;
                            let j0 = if j < i { j } else { j + 1 };
                            assert(before[j0] == k);
                            assert(j0 != i);
                        }
                        if before.contains(k) && k != (response, packet_id as nat) {
                            let j = choose|j: int| 0 <= j < before.len() && before[j] == k;
                            if j < i {
                                assert(v[j] == k);
                            } else {
                                assert(v[j - 1] == k);
                            }
                        }
                    }
                }
                self.packets = packets;
                true
            },
        }
    }

    /// Removes every packet.
    pub fn clear(&mut self)
        ensures
            final(self)@ == Seq::<(ResponsePacket, nat)>::empty(),
    {
        self.packets = Vec::new();
        assert(self@ =~= Seq::<(ResponsePacket, nat)>::empty());
    }

    /// Number of stored packets.
    pub fn len(&self) -> (r: usize)
        ensures
            r == self@.len(),
    {
        self.packets.len()
    }

    /// Copies of the stored packets, in order.
    pub fn get_stored(&self) -> (r: Vec<GenericStorePacket<PacketIdType>>)
        ensures
            r@.len() == self@.len(),
            forall|i: int| 0 <= i < r@.len() ==> store_key(#[trigger] r@[i]) == self@[i] && r@[i].wf(),
    {
        proof { use_type_invariant(self); }
        let mut r: Vec<GenericStorePacket<PacketIdType>> = Vec::new();
        let mut i: usize = 0;
        while i < self.packets.len()
            invariant
                i <= self.packets@.len(),
                r@.len() == i,
                forall|k: int| 0 <= k < self.packets@.len() ==> (#[trigger] self.packets@[k]).wf(),
                forall|k: int| 0 <= k < i ==> store_key(#[trigger] r@[k]) == self@[k] && r@[k].wf(),
            decreases self.packets@.len() - i,
        {
            let p = self.packets[i].duplicate();
            r.push(p);
            i = i + 1;
        }
        r
    }

    /// Takes every packet out of the store, in order.
    pub fn take_all(&mut self) -> (r: Vec<GenericStorePacket<PacketIdType>>)
        ensures
            r@ == old(self).spec_packets(),
            old(self)@.no_duplicates(),
            r@.len() == old(self)@.len(),
            forall|i: int| 0 <= i < r@.len() ==> store_key(#[trigger] r@[i]) == old(self)@[i] && r@[i].wf(),
            final(self)@ == Seq::<(ResponsePacket, nat)>::empty(),
    {
        proof { use_type_invariant(&*self); }
        let mut packets: Vec<GenericStorePacket<PacketIdType>> = Vec::new();
        std::mem::swap(&mut packets, &mut self.packets);
        assert(self@ =~= Seq::<(ResponsePacket, nat)>::empty());
        packets
    }
}

} // verus!
