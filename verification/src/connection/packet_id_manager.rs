use vstd::prelude::*;
use core::marker::PhantomData;
use crate::connection::id_set::IdSet;
use crate::packet::error::MqttError;
use crate::packet::packet_id::{pid_max, IsPacketId};

verus! {

/// Hands out packet identifiers and keeps track of those in use.
#[derive(Debug)]
pub struct PacketIdManager<PacketIdType: IsPacketId> {
    used: IdSet,
    marker: PhantomData<PacketIdType>,
}

impl<PacketIdType: IsPacketId> View for PacketIdManager<PacketIdType> {
    type V = Set<u32>;

    closed spec fn view(&self) -> Set<u32> {
        self.used@
    }
}

/// Every value from 1 below `v` is in `used`.
pub open spec fn all_used_below(used: Set<u32>, v: nat) -> bool {
    forall|x: u32| 1 <= x < v ==> #[trigger] used.contains(x)
}

impl<PacketIdType: IsPacketId> PacketIdManager<PacketIdType> {
    #[verifier::type_invariant]
    closed spec fn inv(self) -> bool {
        forall|v: u32| #[trigger] self.used@.contains(v) ==> 1 <= v && v as nat <= pid_max(PacketIdType::spec_width())
    }

    /// Every identifier in use is a valid one.
    pub fn lemma_in_range(&self)
        ensures
            forall|v: u32| #[trigger] self@.contains(v) ==> 1 <= v && v as nat <= pid_max(PacketIdType::spec_width()),
    {
        proof { use_type_invariant(self); }
    }

    /// A manager with no identifier in use.
    pub fn new() -> (r: Self)
        ensures
            r@ == Set::<u32>::empty(),
    {
        PacketIdManager { used: IdSet::new(), marker: PhantomData }
    }

    /// The smallest identifier not in use, now marked as used;
    /// `PacketIdentifierFullyUsed` when every identifier is in use.
    pub fn acquire_unique_id(&mut self) -> (r: Result<PacketIdType, MqttError>)
        ensures
            r matches Ok(id) ==> {
                &&& 1 <= id.spec_value() <= pid_max(PacketIdType::spec_width())
                &&& !old(self)@.contains(id.spec_value() as u32)
                &&& all_used_below(old(self)@, id.spec_value())
                &&& final(self)@ == old(self)@.insert(id.spec_value() as u32)
            },
            r matches Err(e) ==> e == MqttError::PacketIdentifierFullyUsed && final(self)@ == old(self)@
                && all_used_below(old(self)@, pid_max(PacketIdType::spec_width()) + 1),
    {
        let max = PacketIdType::max_value();
        let mut candidate: u32 = 1;
        while self.used.contains(candidate)
            invariant
                1 <= candidate <= max,
                max as nat == pid_max(PacketIdType::spec_width()),
                self@ == old(self)@,
                all_used_below(self@, candidate as nat),
            decreases max - candidate,
        {
            if candidate == max {
                assert(all_used_below(self@, candidate as nat + 1));
                return Err(MqttError::PacketIdentifierFullyUsed);
            }
            candidate = candidate + 1;
        }
        let id = PacketIdType::from_value(candidate);
        proof { use_type_invariant(&*self); }
        let mut used = IdSet::new();
        std::mem::swap(&mut used, &mut self.used);
        used.insert(candidate);
        self.used = used;
        Ok(id)
    }

    /// Marks `id` as used: `PacketIdentifierInvalid` for 0,
    /// `PacketIdentifierConflict` when it is already in use.
    pub fn register_id(&mut self, id: PacketIdType) -> (r: Result<(), MqttError>)
        ensures
            id.spec_value() == 0 ==> r == Err::<(), MqttError>(MqttError::PacketIdentifierInvalid) && final(self)@ == old(self)@,
            id.spec_value() != 0 && old(self)@.contains(id.spec_value() as u32) ==> r == Err::<(), MqttError>(
                MqttError::PacketIdentifierConflict,
            ) && final(self)@ == old(self)@,
            id.spec_value() != 0 && !old(self)@.contains(id.spec_value() as u32) ==> r is Ok && final(self)@
                == old(self)@.insert(id.spec_value() as u32),
    {
        let v = id.value();
        if v == 0 {
            return Err(MqttError::PacketIdentifierInvalid);
        }
        proof {
            use_type_invariant(&*self);
            PacketIdType::lemma_packet_id(id);
        }
        let mut used = IdSet::new();
        std::mem::swap(&mut used, &mut self.used);
        let fresh = used.insert(v);
        self.used = used;
        if fresh {
            Ok(())
        } else {
            Err(MqttError::PacketIdentifierConflict)
        }
    }

    /// Marks `id` as free.
    pub fn release_id(&mut self, id: PacketIdType)
        ensures
            final(self)@ == old(self)@.remove(id.spec_value() as u32),
    {
        let v = id.value();
        proof { use_type_invariant(&*self); }
        let mut used = IdSet::new();
        std::mem::swap(&mut used, &mut self.used);
        used.remove(v);
        self.used = used;
    }

    /// Whether `id` is in use.
    pub fn is_used_id(&self, id: PacketIdType) -> (r: bool)
        ensures
            r == self@.contains(id.spec_value() as u32),
    {
        self.used.contains(id.value())
    }

    /// Frees every identifier.
    pub fn clear(&mut self)
        ensures
            final(self)@ == Set::<u32>::empty(),
    {
        self.used = IdSet::new();
    }
}

/// Releasing an identifier just acquired gives back the identifiers in use
/// before.
pub proof fn lemma_acquire_release(before: Set<u32>, id: u32)
    requires
        !before.contains(id),
    ensures
        before.insert(id).remove(id) == before,
{
    assert(before.insert(id).remove(id) =~= before);
}

} // verus!
