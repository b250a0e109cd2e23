use vstd::prelude::*;
use core::marker::PhantomData;
use crate::connection::event::{GenericEvent, TimerKind};
use crate::connection::id_set::IdSet;
use crate::connection::packet_builder::{frame_invalid, frame_len, Cursor, PacketBuildResult, PacketBuilder, RawPacket};
use crate::connection::packet_id_manager::PacketIdManager;
use crate::connection::role::{RoleKind, RoleType};
use crate::connection::store::GenericStore;
use crate::connection::topic_alias_recv::TopicAliasRecv;
use crate::connection::topic_alias_send::TopicAliasSend;
use crate::connection::version::Version;
use crate::packet::control::{control_result, ControlPacket};
use crate::packet::packet_id::{lemma_pid_roundtrip, pid_bytes, pid_value};
use crate::packet::error::MqttError;
use crate::packet::generic::{GenericPacket, GenericStorePacket, ResponsePacket};
use crate::packet::packet_id::IsPacketId;
use crate::packet::property::{Properties, Property};
use crate::packet::property_check::{first_topic_alias, get_topic_alias_from_props};
use crate::packet::qos::Qos;
use crate::packet::publish_common::header_qos;
use crate::packet::v3_1_1;
use crate::packet::v5_0;

verus! {

/// Largest MQTT packet: 1 (fixed header) + 4 (remaining length) + 128^4.
pub const MQTT_PACKET_SIZE_NO_LIMIT: u32 = 268435461;

/// Total size of an MQTT packet (fixed header byte, the Variable Byte
/// Integer that encodes the remaining length, and the remaining bytes).
pub open spec fn spec_total_size(remaining_length: u32) -> int {
    1 + (if remaining_length < 128 {
        1int
    } else if remaining_length < 16384 {
        2int
    } else if remaining_length < 2097152 {
        3int
    } else {
        4int
    }) + remaining_length
}

/// Total size of a packet from its remaining length.
pub fn remaining_length_to_total_size(remaining_length: u32) -> (r: u32)
    requires
        remaining_length <= u32::MAX - 5,
    ensures
        r == spec_total_size(remaining_length),
{
    let remaining_length_bytes: u32 = if remaining_length < 128 {
        1
    } else if remaining_length < 16384 {
        2
    } else if remaining_length < 2097152 {
        3
    } else {
        4
    };
    1 + remaining_length_bytes + remaining_length
}

proof fn lemma_push_to_set(s: Seq<u32>, x: u32)
    ensures
        s.push(x).to_set() == s.to_set().insert(x),
{
    assert forall|v: u32| s.push(x).contains(v) <==> (s.contains(v) || v == x) by {
        if s.push(x).contains(v) {
            let k = choose|k: int| 0 <= k < s.push(x).len() && s.push(x)[k] == v;
            if k < s.len() {
                assert(s[k] == v);
            }
        }
        if s.contains(v) {
            let k = choose|k: int| 0 <= k < s.len() && s[k] == v;
            assert(s.push(x)[k] == v);
        }
        if v == x {
            assert(s.push(x)[s.len() as int] == v);
        }
    }
    assert forall|v: u32| #[trigger] s.push(x).to_set().contains(v) <==> s.to_set().insert(x).contains(v) by {
        assert(s.push(x).to_set().contains(v) == s.push(x).contains(v));
        assert(s.to_set().contains(v) == s.contains(v));
    }
    assert(s.push(x).to_set() =~= s.to_set().insert(x));
}

/// The value of `p` when it is a ReceiveMaximum (`kind` 0), TopicAliasMaximum
/// (1) or ServerKeepAlive (2) property.
pub open spec fn prop_u16(p: Property, kind: u8) -> Option<u16> {
    match p {
        Property::ReceiveMaximum(x) => if kind == 0 {
            Some(x.spec_val())
        } else {
            None
        },
        Property::TopicAliasMaximum(x) => if kind == 1 {
            Some(x.spec_val())
        } else {
            None
        },
        Property::ServerKeepAlive(x) => if kind == 2 {
            Some(x.spec_val())
        } else {
            None
        },
        _ => None,
    }
}

/// The value of `p` when it is a MaximumPacketSize (`kind` 0) or
/// SessionExpiryInterval (1) property.
pub open spec fn prop_u32(p: Property, kind: u8) -> Option<u32> {
    match p {
        Property::MaximumPacketSize(x) => if kind == 0 {
            Some(x.spec_val())
        } else {
            None
        },
        Property::SessionExpiryInterval(x) => if kind == 1 {
            Some(x.spec_val())
        } else {
            None
        },
        _ => None,
    }
}

/// The value of the last property of the kind in `ps` (the last non-zero one
/// when `nonzero`).
pub open spec fn last_u16(ps: Seq<Property>, kind: u8, nonzero: bool) -> Option<u16>
    decreases ps.len(),
{
    if ps.len() == 0 {
        None
    } else {
        match prop_u16(ps.last(), kind) {
            Some(v) => if !nonzero || v != 0 {
                Some(v)
            } else {
                last_u16(ps.drop_last(), kind, nonzero)
            },
            None => last_u16(ps.drop_last(), kind, nonzero),
        }
    }
}

/// The value of the last property of the kind in `ps` (the last non-zero one
/// when `nonzero`).
pub open spec fn last_u32(ps: Seq<Property>, kind: u8, nonzero: bool) -> Option<u32>
    decreases ps.len(),
{
    if ps.len() == 0 {
        None
    } else {
        match prop_u32(ps.last(), kind) {
            Some(v) => if !nonzero || v != 0 {
                Some(v)
            } else {
                last_u32(ps.drop_last(), kind, nonzero)
            },
            None => last_u32(ps.drop_last(), kind, nonzero),
        }
    }
}

/// Packet types that carry a packet identifier.
pub open spec fn type_has_pid_spec(t: u8) -> bool {
    4 <= t <= 11
}

proof fn lemma_last_step(ps: Seq<Property>, i: int)
    requires
        0 <= i < ps.len(),
    ensures
        ps.take(i + 1).drop_last() == ps.take(i),
        ps.take(i + 1).last() == ps[i],
{
    assert(ps.take(i + 1).drop_last() =~= ps.take(i));
}

/// State of the connection handshake.
#[derive(Debug, Clone, Copy, PartialEq, Eq, Structural)]
pub enum ConnectionStatus {
    Disconnected,
    Connecting,
    Connected,
}

/// The MQTT protocol logic of one connection, without any I/O: packets to
/// send and bytes received go in, events come out.
#[derive(Debug)]
pub struct GenericConnection<Role: RoleType, PacketIdType: IsPacketId> {
    marker: PhantomData<Role>,
    protocol_version: Version,
    pid_man: PacketIdManager<PacketIdType>,
    pid_suback: IdSet,
    pid_unsuback: IdSet,
    pid_puback: IdSet,
    pid_pubrec: IdSet,
    pid_pubcomp: IdSet,
    need_store: bool,
    store: GenericStore<PacketIdType>,
    offline_publish: bool,
    auto_pub_response: bool,
    auto_ping_response: bool,
    auto_map_topic_alias_send: bool,
    auto_replace_topic_alias_send: bool,
    topic_alias_recv: Option<TopicAliasRecv>,
    topic_alias_send: Option<TopicAliasSend>,
    publish_send_max: Option<u16>,
    publish_recv_max: Option<u16>,
    publish_send_count: u16,
    publish_recv: IdSet,
    maximum_packet_size_send: u32,
    maximum_packet_size_recv: u32,
    status: ConnectionStatus,
    pingreq_user_send_interval_ms: Option<u64>,
    pingreq_keep_alive_ms: u64,
    pingreq_server_keep_alive_ms: Option<u64>,
    pingreq_recv_timeout_ms: u64,
    pingresp_recv_timeout_ms: u64,
    qos2_publish_handled: IdSet,
    pingreq_send_set: bool,
    pingreq_recv_set: bool,
    pingresp_recv_set: bool,
    packet_builder: PacketBuilder,
    is_client: bool,
}

/// A connection with `u16` packet identifiers.
pub type Connection<Role> = GenericConnection<Role, u16>;

/// The events that cancel the timers whose flags are set, in the order
/// PINGREQ send, PINGREQ receive, PINGRESP receive.
pub open spec fn cancel_events<P: IsPacketId>(send_set: bool, recv_set: bool, resp_set: bool) -> Seq<GenericEvent<P>> {
    (if send_set {
        seq![GenericEvent::<P>::RequestTimerCancel(TimerKind::PingreqSend)]
    } else {
        Seq::<GenericEvent<P>>::empty()
    }) + (if recv_set {
        seq![GenericEvent::<P>::RequestTimerCancel(TimerKind::PingreqRecv)]
    } else {
        Seq::<GenericEvent<P>>::empty()
    }) + (if resp_set {
        seq![GenericEvent::<P>::RequestTimerCancel(TimerKind::PingrespRecv)]
    } else {
        Seq::<GenericEvent<P>>::empty()
    })
}

/// The identifier that `e` releases, if it is a release.
pub open spec fn released_id<P: IsPacketId>(e: GenericEvent<P>) -> Option<u32> {
    match e {
        GenericEvent::NotifyPacketIdReleased(id) => Some(id.spec_value() as u32),
        _ => None,
    }
}

/// `events` are all packet identifier releases, and the identifiers they
/// release are exactly `ids`.
pub open spec fn releases_exactly<P: IsPacketId>(events: Seq<GenericEvent<P>>, ids: Set<u32>) -> bool {
    &&& forall|k: int| 0 <= k < events.len() ==> (#[trigger] released_id(events[k])).is_some() && ids.contains(released_id(events[k]).unwrap())
    &&& forall|v: u32| #[trigger] ids.contains(v) ==> exists|k: int| 0 <= k < events.len() && #[trigger] released_id(events[k]) == Some(v)
    &&& forall|k1: int, k2: int| 0 <= k1 < k2 < events.len() ==> #[trigger] released_id(events[k1]) != #[trigger] released_id(events[k2])
}

proof fn lemma_releases_push<P: IsPacketId>(events: Seq<GenericEvent<P>>, ids: Set<u32>, id: P)
    requires
        releases_exactly(events, ids),
        !ids.contains(id.spec_value() as u32),
    ensures
        releases_exactly(events.push(GenericEvent::NotifyPacketIdReleased(id)), ids.insert(id.spec_value() as u32)),
{
    let e2 = events.push(GenericEvent::NotifyPacketIdReleased(id));
    let v0 = id.spec_value() as u32;
    assert forall|k: int| 0 <= k < e2.len() implies (#[trigger] released_id(e2[k])).is_some() && ids.insert(v0).contains(released_id(e2[k]).unwrap()) by {
        if k < events.len() {
            assert(e2[k] == events[k]);
            assert(released_id(events[k]).is_some());
        }
    }
    assert forall|v: u32| #[trigger] ids.insert(v0).contains(v) implies exists|k: int| 0 <= k < e2.len() && #[trigger] released_id(e2[k]) == Some(v) by {
        if v == v0 {
            assert(released_id(e2[events.len() as int]) == Some(v));
        } else {
            assert(ids.contains(v));
            let k = choose|k: int| 0 <= k < events.len() && #[trigger] released_id(events[k]) == Some(v);
            assert(e2[k] == events[k]);
            assert(released_id(e2[k]) == Some(v));
        }
    }
    assert forall|k1: int, k2: int| 0 <= k1 < k2 < e2.len() implies #[trigger] released_id(e2[k1]) != #[trigger] released_id(e2[k2]) by {
        assert(e2[k1] == events[k1]);
        assert(released_id(events[k1]).is_some());
        if k2 < events.len() {
            assert(e2[k2] == events[k2]);
        }
    }
}

proof fn lemma_releases_concat<P: IsPacketId>(a: Seq<GenericEvent<P>>, b: Seq<GenericEvent<P>>, x: Set<u32>, y: Set<u32>)
    requires
        releases_exactly(a, x),
        releases_exactly(b, y),
        x.disjoint(y),
    ensures
        releases_exactly(a + b, x.union(y)),
{
    let c = a + b;
    assert forall|k: int| 0 <= k < c.len() implies (#[trigger] released_id(c[k])).is_some() && x.union(y).contains(released_id(c[k]).unwrap()) by {
        if k < a.len() {
            assert(c[k] == a[k]);
            assert(released_id(a[k]).is_some());
        } else {
            assert(c[k] == b[k - a.len()]);
            assert(released_id(b[k - a.len()]).is_some());
        }
    }
    assert forall|v: u32| #[trigger] x.union(y).contains(v) implies exists|k: int| 0 <= k < c.len() && #[trigger] released_id(c[k]) == Some(v) by {
        if x.contains(v) {
            let k = choose|k: int| 0 <= k < a.len() && #[trigger] released_id(a[k]) == Some(v);
            assert(c[k] == a[k]);
            assert(released_id(c[k]) == Some(v));
        } else {
            assert(y.contains(v));
            let k = choose|k: int| 0 <= k < b.len() && #[trigger] released_id(b[k]) == Some(v);
            assert(c[k + a.len()] == b[k]);
            assert(released_id(c[k + a.len()]) == Some(v));
        }
    }
    assert forall|k1: int, k2: int| 0 <= k1 < k2 < c.len() implies #[trigger] released_id(c[k1]) != #[trigger] released_id(c[k2]) by {
        if k2 < a.len() {
            assert(c[k1] == a[k1]);
            assert(c[k2] == a[k2]);
        } else if k1 >= a.len() {
            assert(c[k1] == b[k1 - a.len()]);
            assert(c[k2] == b[k2 - a.len()]);
        } else {
            assert(c[k1] == a[k1]);
            assert(c[k2] == b[k2 - a.len()]);
            assert(released_id(a[k1]).is_some());
            assert(released_id(b[k2 - a.len()]).is_some());
            assert(x.contains(released_id(a[k1]).unwrap()));
            assert(y.contains(released_id(b[k2 - a.len()]).unwrap()));
        }
    }
}

proof fn lemma_release_step<P: IsPacketId>(rel: Seq<GenericEvent<P>>, more: Seq<GenericEvent<P>>, used: Set<u32>, done: Set<u32>, ids: Set<u32>)
    requires
        releases_exactly(rel, used.intersect(done)),
        releases_exactly(more, used.difference(done).intersect(ids)),
    ensures
        releases_exactly(rel + more, used.intersect(done.union(ids))),
{
    assert(used.intersect(done).disjoint(used.difference(done).intersect(ids)));
    lemma_releases_concat(rel, more, used.intersect(done), used.difference(done).intersect(ids));
    assert(used.intersect(done).union(used.difference(done).intersect(ids)) =~= used.intersect(done.union(ids)));
}

/// The keys of the packets of `packets` that are no larger than `max`, in
/// order: those that resending the store keeps.
pub open spec fn kept_keys<P: IsPacketId>(packets: Seq<GenericStorePacket<P>>, max: nat) -> Seq<(ResponsePacket, nat)>
    decreases packets.len(),
{
    if packets.len() == 0 {
        Seq::empty()
    } else {
        let rest = kept_keys(packets.drop_last(), max);
        if packets.last().spec_size() > max {
            rest
        } else {
            rest.push(crate::connection::store::store_key(packets.last()))
        }
    }
}

/// The packet identifiers of the packets of `packets` larger than `max`:
/// those that resending the store gives back.
pub open spec fn dropped_ids<P: IsPacketId>(packets: Seq<GenericStorePacket<P>>, max: nat) -> Set<u32>
    decreases packets.len(),
{
    if packets.len() == 0 {
        Set::empty()
    } else {
        let rest = dropped_ids(packets.drop_last(), max);
        if packets.last().spec_size() > max {
            rest.insert(packets.last().spec_packet_id().spec_value() as u32)
        } else {
            rest
        }
    }
}

/// The event of resending stored packet `p`: its identifier is released
/// when it is larger than `max`, else it is sent as it is.
pub open spec fn stored_event<P: IsPacketId>(p: GenericStorePacket<P>, max: nat, e: GenericEvent<P>) -> bool {
    if p.spec_size() > max {
        e == GenericEvent::<P>::NotifyPacketIdReleased(p.spec_packet_id())
    } else {
        e matches GenericEvent::RequestSendPacket { packet, release_packet_id_if_send_error }
            && release_packet_id_if_send_error is None && p.spec_is_packet(packet)
    }
}

proof fn lemma_kept_keys_from<P: IsPacketId>(packets: Seq<GenericStorePacket<P>>, max: nat, x: (ResponsePacket, nat))
    requires
        kept_keys(packets, max).contains(x),
    ensures
        exists|j: int| 0 <= j < packets.len() && crate::connection::store::store_key(#[trigger] packets[j]) == x,
    decreases packets.len(),
{
    let rest = kept_keys(packets.drop_last(), max);
    if rest.contains(x) {
        lemma_kept_keys_from(packets.drop_last(), max, x);
        let j = choose|j: int| 0 <= j < packets.drop_last().len() && crate::connection::store::store_key(#[trigger] packets.drop_last()[j]) == x;
        assert(packets[j] == packets.drop_last()[j]);
    } else {
        let last = packets.len() - 1;
        assert(crate::connection::store::store_key(packets[last]) == x);
    }
}

/// The identifiers in use and the store keys after restoring `packets` in
/// order, from `used` and `store`: a well-formed packet whose identifier is
/// neither 0 nor in use has it registered and its key stored (unless the
/// key is there already); any other packet changes neither.
pub open spec fn restore_fold<P: IsPacketId>(
    packets: Seq<GenericStorePacket<P>>,
    used: Set<u32>,
    store: Seq<(ResponsePacket, nat)>,
) -> (Set<u32>, Seq<(ResponsePacket, nat)>)
    decreases packets.len(),
{
    if packets.len() == 0 {
        (used, store)
    } else {
        let rest = restore_fold(packets.drop_last(), used, store);
        let p = packets.last();
        let v = p.spec_packet_id().spec_value();
        let key = crate::connection::store::store_key(p);
        if p.wf() && v != 0 && !rest.0.contains(v as u32) {
            (rest.0.insert(v as u32), if rest.1.contains(key) { rest.1 } else { rest.1.push(key) })
        } else {
            rest
        }
    }
}

/// Which acknowledgement a stored packet waits for: 1 PUBACK, 2 PUBREC,
/// 3 PUBCOMP.
pub open spec fn response_kind(r: ResponsePacket) -> u8 {
    match r {
        ResponsePacket::V3_1_1Puback | ResponsePacket::V5_0Puback => 1,
        ResponsePacket::V3_1_1Pubrec | ResponsePacket::V5_0Pubrec => 2,
        ResponsePacket::V3_1_1Pubcomp | ResponsePacket::V5_0Pubcomp => 3,
    }
}

/// The identifiers of the well-formed packets of `packets` that wait for
/// acknowledgement `kind` (see `response_kind`).
pub open spec fn waiting_ids<P: IsPacketId>(packets: Seq<GenericStorePacket<P>>, kind: u8) -> Set<u32> {
    Set::new(
        |v: u32|
            exists|i: int|
                0 <= i < packets.len() && (#[trigger] packets[i]).wf() && response_kind(packets[i].spec_response()) == kind
                    && packets[i].spec_packet_id().spec_value() as u32 == v,
    )
}

proof fn lemma_waiting_ids_step<P: IsPacketId>(packets: Seq<GenericStorePacket<P>>, i: int, kind: u8)
    requires
        0 <= i < packets.len(),
    ensures
        waiting_ids(packets.take(i + 1), kind) == (if packets[i].wf() && response_kind(packets[i].spec_response()) == kind {
            waiting_ids(packets.take(i), kind).insert(packets[i].spec_packet_id().spec_value() as u32)
        } else {
            waiting_ids(packets.take(i), kind)
        }),
{
    let a = packets.take(i + 1);
    let b = packets.take(i);
    let rhs = if packets[i].wf() && response_kind(packets[i].spec_response()) == kind {
        waiting_ids(b, kind).insert(packets[i].spec_packet_id().spec_value() as u32)
    } else {
        waiting_ids(b, kind)
    };
    assert forall|v: u32| waiting_ids(a, kind).contains(v) <==> rhs.contains(v) by {
        if waiting_ids(a, kind).contains(v) {
            let j = choose|j: int|
                0 <= j < a.len() && (#[trigger] a[j]).wf() && response_kind(a[j].spec_response()) == kind
                    && a[j].spec_packet_id().spec_value() as u32 == v;
            if j < i {
                assert(b[j] == a[j]);
            }
        }
        if waiting_ids(b, kind).contains(v) {
            let j = choose|j: int|
                0 <= j < b.len() && (#[trigger] b[j]).wf() && response_kind(b[j].spec_response()) == kind
                    && b[j].spec_packet_id().spec_value() as u32 == v;
            assert(a[j] == b[j]);
        }
        if packets[i].wf() && response_kind(packets[i].spec_response()) == kind && v == packets[i].spec_packet_id().spec_value() as u32 {
            assert(a[i] == packets[i]);
        }
    }
    assert(waiting_ids(a, kind) =~= rhs);
}

/// The packet type that acknowledges a PUBLISH with QoS `q` (1 or 2):
/// PUBACK (4) or PUBREC (5).
pub open spec fn ack_type(q: u8) -> u8 {
    if q == 1 { 4u8 } else { 5u8 }
}

/// The PINGREQ send interval in force: the user's setting, else the server's
/// keep alive, else the keep alive of the CONNECT sent.
pub open spec fn pingreq_interval(user: Option<u64>, server: Option<u64>, keep_alive: u64) -> u64 {
    match user {
        Some(ms) => ms,
        None => match server {
            Some(ms) => ms,
            None => keep_alive,
        },
    }
}

/// The PINGREQ receive timer after property `p`, from the events so far, the
/// timer flag and the timeout in `prev`: a ServerKeepAlive of 0 stops the
/// timer (with a cancel event when it ran) and any other value `v` restarts
/// it for `v` * 1.5 seconds; other properties change nothing.
pub open spec fn keep_alive_step<P: IsPacketId>(p: Property, prev: (Seq<GenericEvent<P>>, bool, u64)) -> (Seq<GenericEvent<P>>, bool, u64) {
    match prop_u16(p, 2) {
        Some(v) => if v == 0 {
            (
                if prev.1 {
                    prev.0.push(GenericEvent::<P>::RequestTimerCancel(TimerKind::PingreqRecv))
                } else {
                    prev.0
                },
                false,
                0u64,
            )
        } else {
            (
                prev.0.push(GenericEvent::<P>::RequestTimerReset { kind: TimerKind::PingreqRecv, duration_ms: (v * 1500) as u64 }),
                true,
                (v * 1500) as u64,
            )
        },
        None => prev,
    }
}

/// The PINGREQ receive timer after the properties of `ps`, taken in order
/// from a timer flag `set` and timeout `timeout` (see `keep_alive_step`):
/// the events, the flag and the timeout.
pub open spec fn keep_alive_steps<P: IsPacketId>(ps: Seq<Property>, set: bool, timeout: u64) -> (Seq<GenericEvent<P>>, bool, u64)
    decreases ps.len(),
{
    if ps.len() == 0 {
        (Seq::<GenericEvent<P>>::empty(), set, timeout)
    } else {
        keep_alive_step::<P>(ps.last(), keep_alive_steps::<P>(ps.drop_last(), set, timeout))
    }
}

/// The PINGREQ send timer after property `p` of a received CONNACK, from
/// the events so far, the timer flag and the server keep alive in `prev`: a
/// ServerKeepAlive of `v` seconds records `v` * 1000 ms and, when the user
/// set no interval of their own, stops the timer for 0 (with a cancel event
/// when it ran) or restarts it with that interval.
pub open spec fn server_keep_alive_step<P: IsPacketId>(
    p: Property,
    user_none: bool,
    prev: (Seq<GenericEvent<P>>, bool, Option<u64>),
) -> (Seq<GenericEvent<P>>, bool, Option<u64>) {
    match prop_u16(p, 2) {
        Some(v) => {
            let ms = (v * 1000) as u64;
            if !user_none {
                (prev.0, prev.1, Some(ms))
            } else if ms == 0 {
                (
                    if prev.1 {
                        prev.0.push(GenericEvent::<P>::RequestTimerCancel(TimerKind::PingreqSend))
                    } else {
                        prev.0
                    },
                    false,
                    Some(ms),
                )
            } else {
                (prev.0.push(GenericEvent::<P>::RequestTimerReset { kind: TimerKind::PingreqSend, duration_ms: ms }), true, Some(ms))
            }
        },
        None => prev,
    }
}

/// `server_keep_alive_step` over the properties of `ps` in order.
pub open spec fn server_keep_alive_steps<P: IsPacketId>(
    ps: Seq<Property>,
    user_none: bool,
    set: bool,
    server: Option<u64>,
) -> (Seq<GenericEvent<P>>, bool, Option<u64>)
    decreases ps.len(),
{
    if ps.len() == 0 {
        (Seq::<GenericEvent<P>>::empty(), set, server)
    } else {
        server_keep_alive_step::<P>(ps.last(), user_none, server_keep_alive_steps::<P>(ps.drop_last(), user_none, set, server))
    }
}

/// Whether a connection of role `kind` and protocol `version` accepts a
/// received packet of type `t`: a client refuses CONNECT, SUBSCRIBE,
/// UNSUBSCRIBE, PINGREQ, and in v3.1.1 DISCONNECT and AUTH; a server refuses
/// CONNACK, SUBACK, UNSUBACK, PINGRESP, and in v3.1.1 AUTH.
pub open spec fn receivable(kind: RoleKind, version: Version, t: u8) -> bool {
    let v3 = version == Version::V3_1_1;
    !((kind == RoleKind::Client && (t == 1 || t == 8 || t == 10 || t == 12 || (t == 14 && v3) || (t == 15 && v3))) || (
    kind == RoleKind::Server && (t == 2 || t == 9 || t == 11 || t == 13 || (t == 15 && v3))))
}

/// Which packets each role accepts, per the MQTT specification: a client
/// refuses exactly CONNECT, SUBSCRIBE, UNSUBSCRIBE and PINGREQ (and in
/// v3.1.1 DISCONNECT and AUTH); a server refuses exactly CONNACK, SUBACK,
/// UNSUBACK and PINGRESP (and in v3.1.1 AUTH); a connection of either role
/// accepts everything. Each request/response pair of these goes one way
/// only: a server accepts PINGREQ and refuses PINGRESP, a client the reverse.
pub proof fn lemma_receivable_by_role(version: Version, t: u8)
    ensures
        receivable(RoleKind::Server, version, 12u8),
        !receivable(RoleKind::Server, version, 13u8),
        receivable(RoleKind::Client, version, 13u8),
        !receivable(RoleKind::Client, version, 12u8),
        !receivable(RoleKind::Client, version, t) <==> (t == 1 || t == 8 || t == 10 || t == 12 || (version
            == Version::V3_1_1 && (t == 14 || t == 15))),
        !receivable(RoleKind::Server, version, t) <==> (t == 2 || t == 9 || t == 11 || t == 13 || (version
            == Version::V3_1_1 && t == 15)),
        receivable(RoleKind::Any, version, t),
        (t == 1 || t == 2 || t == 8 || t == 9 || t == 10 || t == 11 || t == 12 || t == 13) ==> receivable(
            RoleKind::Client,
            version,
            t,
        ) != receivable(RoleKind::Server, version, t),
        (3 <= t <= 7) ==> receivable(RoleKind::Client, version, t) && receivable(RoleKind::Server, version, t),
{
}

/// Whether a connection of role `kind` may send `packet`: CONNECT,
/// SUBSCRIBE, UNSUBSCRIBE, PINGREQ and the v3.1.1 DISCONNECT are the
/// client's; CONNACK, SUBACK, UNSUBACK and PINGRESP the server's; the rest
/// any role's.
pub open spec fn role_allows<P: IsPacketId>(kind: RoleKind, packet: GenericPacket<P>) -> bool {
    let client = kind == RoleKind::Client || kind == RoleKind::Any;
    let server = kind == RoleKind::Server || kind == RoleKind::Any;
    match packet {
        GenericPacket::V3_1_1Connect(_) => client,
        GenericPacket::V5_0Connect(_) => client,
        GenericPacket::V3_1_1Publish(_) => true,
        GenericPacket::V5_0Publish(_) => true,
        GenericPacket::Control(p) => {
            let t = p.spec_packet_type();
            if t == 2 || t == 9 || t == 11 || t == 13 {
                server
            } else if t == 8 || t == 10 || t == 12 || (t == 14 && !p.spec_v5()) {
                client
            } else {
                true
            }
        },
    }
}

impl<Role: RoleType, PacketIdType: IsPacketId> GenericConnection<Role, PacketIdType> {
    /// The packet builder holds the start of a valid packet.
    pub closed spec fn wf(&self) -> bool {
        self.packet_builder.wf()
    }

    pub closed spec fn spec_status(&self) -> ConnectionStatus {
        self.status
    }

    pub closed spec fn spec_protocol_version(&self) -> Version {
        self.protocol_version
    }

    pub closed spec fn spec_pid_used(&self) -> Set<u32> {
        self.pid_man@
    }

    pub closed spec fn spec_pid_suback(&self) -> Set<u32> {
        self.pid_suback@
    }

    pub closed spec fn spec_pid_unsuback(&self) -> Set<u32> {
        self.pid_unsuback@
    }

    pub closed spec fn spec_pid_puback(&self) -> Set<u32> {
        self.pid_puback@
    }

    pub closed spec fn spec_pid_pubrec(&self) -> Set<u32> {
        self.pid_pubrec@
    }

    pub closed spec fn spec_pid_pubcomp(&self) -> Set<u32> {
        self.pid_pubcomp@
    }

    pub closed spec fn spec_qos2_publish_handled(&self) -> Set<u32> {
        self.qos2_publish_handled@
    }

    pub closed spec fn spec_publish_recv(&self) -> Set<u32> {
        self.publish_recv@
    }

    pub closed spec fn spec_need_store(&self) -> bool {
        self.need_store
    }

    pub closed spec fn spec_offline_publish(&self) -> bool {
        self.offline_publish
    }

    pub closed spec fn spec_auto_pub_response(&self) -> bool {
        self.auto_pub_response
    }

    pub closed spec fn spec_auto_ping_response(&self) -> bool {
        self.auto_ping_response
    }

    pub closed spec fn spec_auto_map_topic_alias_send(&self) -> bool {
        self.auto_map_topic_alias_send
    }

    pub closed spec fn spec_auto_replace_topic_alias_send(&self) -> bool {
        self.auto_replace_topic_alias_send
    }

    pub closed spec fn spec_store(&self) -> Seq<(ResponsePacket, nat)> {
        self.store@
    }

    /// The stored packets, in the order they were stored.
    pub closed spec fn spec_store_packets(&self) -> Seq<GenericStorePacket<PacketIdType>> {
        self.store.spec_packets()
    }

    pub closed spec fn spec_publish_send_max(&self) -> Option<u16> {
        self.publish_send_max
    }

    pub closed spec fn spec_publish_recv_max(&self) -> Option<u16> {
        self.publish_recv_max
    }

    pub closed spec fn spec_publish_send_count(&self) -> u16 {
        self.publish_send_count
    }

    pub closed spec fn spec_maximum_packet_size_send(&self) -> u32 {
        self.maximum_packet_size_send
    }

    pub closed spec fn spec_maximum_packet_size_recv(&self) -> u32 {
        self.maximum_packet_size_recv
    }

    pub closed spec fn spec_topic_alias_send(&self) -> Option<TopicAliasSend> {
        self.topic_alias_send
    }

    pub closed spec fn spec_has_topic_alias_recv(&self) -> bool {
        self.topic_alias_recv is Some
    }

    pub closed spec fn spec_is_client(&self) -> bool {
        self.is_client
    }

    pub closed spec fn spec_pingreq_user_send_interval_ms(&self) -> Option<u64> {
        self.pingreq_user_send_interval_ms
    }

    pub closed spec fn spec_pingreq_keep_alive_ms(&self) -> u64 {
        self.pingreq_keep_alive_ms
    }

    pub closed spec fn spec_pingreq_server_keep_alive_ms(&self) -> Option<u64> {
        self.pingreq_server_keep_alive_ms
    }

    pub closed spec fn spec_pingreq_recv_timeout_ms(&self) -> u64 {
        self.pingreq_recv_timeout_ms
    }

    pub closed spec fn spec_pingresp_recv_timeout_ms(&self) -> u64 {
        self.pingresp_recv_timeout_ms
    }

    pub closed spec fn spec_timer_flags(&self) -> (bool, bool, bool) {
        (self.pingreq_send_set, self.pingreq_recv_set, self.pingresp_recv_set)
    }

    /// The events that `send_post_process` adds: a PINGREQ send timer reset
    /// when this is a client and the interval in force is not 0.
    pub open spec fn post_process_events(&self) -> Seq<GenericEvent<PacketIdType>> {
        let ms = pingreq_interval(
            self.spec_pingreq_user_send_interval_ms(),
            self.spec_pingreq_server_keep_alive_ms(),
            self.spec_pingreq_keep_alive_ms(),
        );
        if self.spec_is_client() && ms > 0 {
            seq![GenericEvent::<PacketIdType>::RequestTimerReset { kind: TimerKind::PingreqSend, duration_ms: ms }]
        } else {
            Seq::<GenericEvent<PacketIdType>>::empty()
        }
    }

    /// A disconnected connection for protocol `version`, with no limits,
    /// nothing stored and every option off.
    pub fn new(version: Version) -> (r: Self)
        ensures
            r.wf(),
            r.spec_protocol_version() == version,
            r.spec_status() == ConnectionStatus::Disconnected,
            r.spec_pid_used() == Set::<u32>::empty(),
            r.spec_pid_suback() == Set::<u32>::empty(),
            r.spec_pid_unsuback() == Set::<u32>::empty(),
            r.spec_pid_puback() == Set::<u32>::empty(),
            r.spec_pid_pubrec() == Set::<u32>::empty(),
            r.spec_pid_pubcomp() == Set::<u32>::empty(),
            r.spec_qos2_publish_handled() == Set::<u32>::empty(),
            r.spec_publish_recv() == Set::<u32>::empty(),
            r.spec_store() == Seq::<(ResponsePacket, nat)>::empty(),
            !r.spec_need_store(),
            !r.spec_offline_publish(),
            !r.spec_auto_pub_response(),
            !r.spec_auto_ping_response(),
            !r.spec_auto_map_topic_alias_send(),
            !r.spec_auto_replace_topic_alias_send(),
            r.spec_topic_alias_send() is None,
            !r.spec_has_topic_alias_recv(),
            r.spec_publish_send_max() is None,
            r.spec_publish_recv_max() is None,
            r.spec_publish_send_count() == 0,
            r.spec_maximum_packet_size_send() == MQTT_PACKET_SIZE_NO_LIMIT,
            r.spec_maximum_packet_size_recv() == MQTT_PACKET_SIZE_NO_LIMIT,
            r.spec_pingreq_user_send_interval_ms() is None,
            r.spec_pingreq_keep_alive_ms() == 0,
            r.spec_pingreq_server_keep_alive_ms() is None,
            r.spec_pingreq_recv_timeout_ms() == 0,
            r.spec_pingresp_recv_timeout_ms() == 0,
            r.spec_timer_flags() == (false, false, false),
            !r.spec_is_client(),
    {
        GenericConnection {
            marker: PhantomData,
            protocol_version: version,
            pid_man: PacketIdManager::new(),
            pid_suback: IdSet::new(),
            pid_unsuback: IdSet::new(),
            pid_puback: IdSet::new(),
            pid_pubrec: IdSet::new(),
            pid_pubcomp: IdSet::new(),
            need_store: false,
            store: GenericStore::new(),
            offline_publish: false,
            auto_pub_response: false,
            auto_ping_response: false,
            auto_map_topic_alias_send: false,
            auto_replace_topic_alias_send: false,
            topic_alias_recv: None,
            topic_alias_send: None,
            publish_send_max: None,
            publish_recv_max: None,
            publish_send_count: 0,
            publish_recv: IdSet::new(),
            maximum_packet_size_send: MQTT_PACKET_SIZE_NO_LIMIT,
            maximum_packet_size_recv: MQTT_PACKET_SIZE_NO_LIMIT,
            status: ConnectionStatus::Disconnected,
            pingreq_user_send_interval_ms: None,
            pingreq_keep_alive_ms: 0,
            pingreq_server_keep_alive_ms: None,
            pingreq_recv_timeout_ms: 0,
            pingresp_recv_timeout_ms: 0,
            qos2_publish_handled: IdSet::new(),
            pingreq_send_set: false,
            pingreq_recv_set: false,
            pingresp_recv_set: false,
            packet_builder: PacketBuilder::new(),
            is_client: false,
        }
    }

    /// The connection with `auto_pub_response` set to `v`.
    pub closed spec fn with_auto_pub_response(self, v: bool) -> Self {
        GenericConnection { auto_pub_response: v, ..self }
    }

    /// The connection with `auto_ping_response` set to `v`.
    pub closed spec fn with_auto_ping_response(self, v: bool) -> Self {
        GenericConnection { auto_ping_response: v, ..self }
    }

    /// The connection with `auto_map_topic_alias_send` set to `v`.
    pub closed spec fn with_auto_map_topic_alias_send(self, v: bool) -> Self {
        GenericConnection { auto_map_topic_alias_send: v, ..self }
    }

    /// The connection with `auto_replace_topic_alias_send` set to `v`.
    pub closed spec fn with_auto_replace_topic_alias_send(self, v: bool) -> Self {
        GenericConnection { auto_replace_topic_alias_send: v, ..self }
    }

    /// The connection with `pingresp_recv_timeout_ms` set to `v`.
    pub closed spec fn with_pingresp_recv_timeout_ms(self, v: u64) -> Self {
        GenericConnection { pingresp_recv_timeout_ms: v, ..self }
    }

    /// The connection with `offline_publish` set to `enable`; enabling it
    /// also makes the connection store packets.
    pub closed spec fn with_offline_publish(self, enable: bool) -> Self {
        GenericConnection { offline_publish: enable, need_store: if enable { true } else { self.need_store }, ..self }
    }

    /// Enables or disables sending PUBLISH packets while disconnected; they
    /// are stored and sent once connected.
    pub fn set_offline_publish(&mut self, enable: bool)
        ensures
            *final(self) == old(self).with_offline_publish(enable),
            final(self).spec_offline_publish() == enable,
            final(self).spec_need_store() == (enable || old(self).spec_need_store()),
            final(self).wf() == old(self).wf(),
    {
        self.offline_publish = enable;
        if self.offline_publish {
            self.need_store = true;
        }
    }

    /// Enables or disables answering received PUBLISH, PUBREC and PUBREL
    /// packets automatically.
    pub fn set_auto_pub_response(&mut self, enable: bool)
        ensures
            *final(self) == old(self).with_auto_pub_response(enable),
            final(self).spec_auto_pub_response() == enable,
            final(self).wf() == old(self).wf(),
    {
        self.auto_pub_response = enable;
    }

    /// Enables or disables answering PINGREQ with PINGRESP automatically.
    pub fn set_auto_ping_response(&mut self, enable: bool)
        ensures
            *final(self) == old(self).with_auto_ping_response(enable),
            final(self).spec_auto_ping_response() == enable,
            final(self).wf() == old(self).wf(),
    {
        self.auto_ping_response = enable;
    }

    /// Enables or disables giving topic aliases to outgoing PUBLISH packets,
    /// registering new ones as needed.
    pub fn set_auto_map_topic_alias_send(&mut self, enable: bool)
        ensures
            *final(self) == old(self).with_auto_map_topic_alias_send(enable),
            final(self).spec_auto_map_topic_alias_send() == enable,
            final(self).wf() == old(self).wf(),
    {
        self.auto_map_topic_alias_send = enable;
    }

    /// Enables or disables replacing topic names by registered aliases in
    /// outgoing PUBLISH packets.
    pub fn set_auto_replace_topic_alias_send(&mut self, enable: bool)
        ensures
            *final(self) == old(self).with_auto_replace_topic_alias_send(enable),
            final(self).spec_auto_replace_topic_alias_send() == enable,
            final(self).wf() == old(self).wf(),
    {
        self.auto_replace_topic_alias_send = enable;
    }

    /// Sets how long to wait for PINGRESP after sending PINGREQ (0: no limit).
    pub fn set_pingresp_recv_timeout(&mut self, timeout_ms: u64)
        ensures
            *final(self) == old(self).with_pingresp_recv_timeout_ms(timeout_ms),
            final(self).spec_pingresp_recv_timeout_ms() == timeout_ms,
            final(self).wf() == old(self).wf(),
    {
        self.pingresp_recv_timeout_ms = timeout_ms;
    }

    /// Overrides the PINGREQ send interval (`Some(0)`: never send PINGREQ;
    /// `None`: use the server keep alive, else the CONNECT keep alive). The
    /// timer is cancelled when the interval becomes 0, and reset when it
    /// becomes another value while connected.
    pub fn set_pingreq_send_interval(&mut self, duration_ms: Option<u64>) -> (r: Vec<GenericEvent<PacketIdType>>)
        ensures
            final(self).wf() == old(self).wf(),
            final(self).spec_pingreq_user_send_interval_ms() == duration_ms,
            duration_ms == Some(0u64) && old(self).spec_timer_flags().0 ==> r@ == seq![
                GenericEvent::<PacketIdType>::RequestTimerCancel(TimerKind::PingreqSend),
            ] && final(self).spec_timer_flags().0 == false,
            duration_ms is Some && duration_ms.unwrap() != 0 && old(self).spec_status() == ConnectionStatus::Connected
                ==> r@ == seq![
                GenericEvent::<PacketIdType>::RequestTimerReset { kind: TimerKind::PingreqSend, duration_ms: duration_ms.unwrap() },
            ] && final(self).spec_timer_flags().0 == true,
            !(duration_ms == Some(0u64) && old(self).spec_timer_flags().0) && !(duration_ms is Some && duration_ms.unwrap()
                != 0 && old(self).spec_status() == ConnectionStatus::Connected) ==> r@.len() == 0
                && final(self).spec_timer_flags() == old(self).spec_timer_flags(),
            final(self).spec_status() == old(self).spec_status(),
    {
        let mut events: Vec<GenericEvent<PacketIdType>> = Vec::new();
        self.pingreq_user_send_interval_ms = duration_ms;
        if let Some(ms) = duration_ms {
            if ms == 0 {
                if self.pingreq_send_set {
                    self.pingreq_send_set = false;
                    events.push(GenericEvent::RequestTimerCancel(TimerKind::PingreqSend));
                }
            } else if self.status == ConnectionStatus::Connected {
                self.pingreq_send_set = true;
                events.push(GenericEvent::RequestTimerReset { kind: TimerKind::PingreqSend, duration_ms: ms });
            }
        }
        events
    }

    /// How many more PUBLISH packets with QoS 1 or 2 may be sent before the
    /// receive maximum of the peer is reached; `None` when there is no limit.
    pub fn get_receive_maximum_vacancy_for_send(&self) -> (r: Option<u16>)
        ensures
            match self.spec_publish_send_max() {
                Some(max) => r == Some(if max >= self.spec_publish_send_count() {
                    (max - self.spec_publish_send_count()) as u16
                } else {
                    0u16
                }),
                None => r is None,
            },
    {
        match self.publish_send_max {
            Some(max) => Some(max.saturating_sub(self.publish_send_count)),
            None => None,
        }
    }

    /// A new packet identifier: the smallest not in use, now in use;
    /// `PacketIdentifierFullyUsed` when all are in use.
    pub fn acquire_packet_id(&mut self) -> (r: Result<PacketIdType, MqttError>)
        ensures
            final(self).wf() == old(self).wf(),
            r matches Ok(id) ==> !old(self).spec_pid_used().contains(id.spec_value() as u32) && final(self).spec_pid_used()
                == old(self).spec_pid_used().insert(id.spec_value() as u32) && id.spec_value() >= 1,
            r matches Err(e) ==> e == MqttError::PacketIdentifierFullyUsed && final(self).spec_pid_used() == old(self).spec_pid_used(),
            final(self).spec_status() == old(self).spec_status(),
    {
        self.pid_man.acquire_unique_id()
    }

    /// Marks `packet_id` as in use: `PacketIdentifierInvalid` for 0,
    /// `PacketIdentifierConflict` when it is already in use.
    pub fn register_packet_id(&mut self, packet_id: PacketIdType) -> (r: Result<(), MqttError>)
        ensures
            final(self).wf() == old(self).wf(),
            packet_id.spec_value() == 0 ==> r == Err::<(), MqttError>(MqttError::PacketIdentifierInvalid),
            packet_id.spec_value() != 0 && old(self).spec_pid_used().contains(packet_id.spec_value() as u32) ==> r
                == Err::<(), MqttError>(MqttError::PacketIdentifierConflict),
            r is Err ==> final(self).spec_pid_used() == old(self).spec_pid_used(),
            packet_id.spec_value() != 0 && !old(self).spec_pid_used().contains(packet_id.spec_value() as u32) ==> r
                is Ok && final(self).spec_pid_used() == old(self).spec_pid_used().insert(packet_id.spec_value() as u32),
            final(self).spec_status() == old(self).spec_status(),
    {
        self.pid_man.register_id(packet_id)
    }

    /// Frees `packet_id` when it is in use, and then tells so.
    pub fn release_packet_id(&mut self, packet_id: PacketIdType) -> (r: Vec<GenericEvent<PacketIdType>>)
        ensures
            final(self).wf() == old(self).wf(),
            final(self).spec_pid_used() == old(self).spec_pid_used().remove(packet_id.spec_value() as u32),
            old(self).spec_pid_used().contains(packet_id.spec_value() as u32) ==> r@ == seq![
                GenericEvent::NotifyPacketIdReleased(packet_id),
            ],
            !old(self).spec_pid_used().contains(packet_id.spec_value() as u32) ==> r@.len() == 0,
            final(self).spec_status() == old(self).spec_status(),
    {
        let mut events: Vec<GenericEvent<PacketIdType>> = Vec::new();
        if self.pid_man.is_used_id(packet_id) {
            self.pid_man.release_id(packet_id);
            events.push(GenericEvent::NotifyPacketIdReleased(packet_id));
        } else {
            proof { assert(old(self).spec_pid_used().remove(packet_id.spec_value() as u32) =~= old(self).spec_pid_used()); }
        }
        events
    }

    /// The packet identifiers of the QoS 2 PUBLISH packets received and not
    /// yet released.
    pub fn get_qos2_publish_handled(&self) -> (r: Vec<u32>)
        ensures
            r@.to_set() == self.spec_qos2_publish_handled(),
            r@.no_duplicates(),
    {
        self.qos2_publish_handled.values()
    }

    /// Restores the packet identifiers of the QoS 2 PUBLISH packets received
    /// and not yet released, as `get_qos2_publish_handled` gave them.
    pub fn restore_qos2_publish_handled(&mut self, pids: Vec<u32>)
        ensures
            final(self).wf() == old(self).wf(),
            final(self).spec_qos2_publish_handled() == pids@.to_set(),
            final(self).spec_status() == old(self).spec_status(),
    {
        let mut set = IdSet::new();
        let mut i: usize = 0;
        while i < pids.len()
            invariant
                i <= pids@.len(),
                set@ == pids@.take(i as int).to_set(),
            decreases pids@.len() - i,
        {
            set.insert(pids[i]);
            proof {
                assert(pids@.take(i + 1) =~= pids@.take(i as int).push(pids@[i as int]));
                lemma_push_to_set(pids@.take(i as int), pids@[i as int]);
            }
            i = i + 1;
        }
        assert(pids@.take(i as int) =~= pids@);
        self.qos2_publish_handled = set;
    }

    /// Copies of the packets stored for retransmission.
    pub fn get_stored_packets(&self) -> (r: Vec<GenericStorePacket<PacketIdType>>)
        ensures
            r@.len() == self.spec_store().len(),
            forall|i: int| 0 <= i < r@.len() ==> crate::connection::store::store_key(#[trigger] r@[i]) == self.spec_store()[i],
    {
        self.store.get_stored()
    }

    /// The MQTT version of the connection.
    pub fn get_protocol_version(&self) -> (r: Version)
        ensures
            r == self.spec_protocol_version(),
    {
        self.protocol_version
    }

    /// Clears the state of a new connection: limits, topic aliases, received
    /// PUBLISH packets, the SUBSCRIBE and UNSUBSCRIBE identifiers waiting for
    /// their answer, keep alive intervals; records the role.
    pub fn initialize(&mut self, is_client: bool)
        ensures
            final(self).wf() == old(self).wf(),
            final(self).spec_publish_send_max() is None,
            final(self).spec_publish_recv_max() is None,
            final(self).spec_publish_send_count() == 0,
            final(self).spec_topic_alias_send() is None,
            !final(self).spec_has_topic_alias_recv(),
            final(self).spec_publish_recv() == Set::<u32>::empty(),
            !final(self).spec_need_store(),
            final(self).spec_pid_suback() == Set::<u32>::empty(),
            final(self).spec_pid_unsuback() == Set::<u32>::empty(),
            final(self).spec_is_client() == is_client,
            final(self).spec_pingreq_keep_alive_ms() == 0,
            final(self).spec_pingreq_server_keep_alive_ms() is None,
            final(self).spec_pingreq_user_send_interval_ms() == old(self).spec_pingreq_user_send_interval_ms(),
            final(self).spec_pingreq_recv_timeout_ms() == old(self).spec_pingreq_recv_timeout_ms(),
            final(self).spec_pingresp_recv_timeout_ms() == old(self).spec_pingresp_recv_timeout_ms(),
            final(self).spec_offline_publish() == old(self).spec_offline_publish(),
            final(self).spec_auto_pub_response() == old(self).spec_auto_pub_response(),
            final(self).spec_auto_ping_response() == old(self).spec_auto_ping_response(),
            final(self).spec_auto_map_topic_alias_send() == old(self).spec_auto_map_topic_alias_send(),
            final(self).spec_auto_replace_topic_alias_send() == old(self).spec_auto_replace_topic_alias_send(),
            final(self).spec_status() == old(self).spec_status(),
            final(self).spec_protocol_version() == old(self).spec_protocol_version(),
            final(self).spec_pid_used() == old(self).spec_pid_used(),
            final(self).spec_pid_puback() == old(self).spec_pid_puback(),
            final(self).spec_pid_pubrec() == old(self).spec_pid_pubrec(),
            final(self).spec_pid_pubcomp() == old(self).spec_pid_pubcomp(),
            final(self).spec_store() == old(self).spec_store(),
            final(self).spec_qos2_publish_handled() == old(self).spec_qos2_publish_handled(),
            final(self).spec_timer_flags() == old(self).spec_timer_flags(),
            final(self).spec_maximum_packet_size_send() == old(self).spec_maximum_packet_size_send(),
            final(self).spec_maximum_packet_size_recv() == old(self).spec_maximum_packet_size_recv(),
    {
        self.publish_send_max = None;
        self.publish_recv_max = None;
        self.publish_send_count = 0;
        self.topic_alias_send = None;
        self.topic_alias_recv = None;
        self.publish_recv.clear();
        self.need_store = false;
        self.pid_suback.clear();
        self.pid_unsuback.clear();
        self.is_client = is_client;
        self.pingreq_keep_alive_ms = 0;
        self.pingreq_server_keep_alive_ms = None;
    }

    /// Forgets the session: identifiers in use, the QoS 1 and 2 flows, the store.
    fn clear_store_related(&mut self)
        ensures
            final(self).wf() == old(self).wf(),
            final(self).spec_pid_used() == Set::<u32>::empty(),
            final(self).spec_pid_puback() == Set::<u32>::empty(),
            final(self).spec_pid_pubrec() == Set::<u32>::empty(),
            final(self).spec_pid_pubcomp() == Set::<u32>::empty(),
            final(self).spec_store() == Seq::<(ResponsePacket, nat)>::empty(),
            *final(self) == (GenericConnection {
                pid_man: final(self).pid_man,
                pid_puback: final(self).pid_puback,
                pid_pubrec: final(self).pid_pubrec,
                pid_pubcomp: final(self).pid_pubcomp,
                store: final(self).store,
                ..*old(self)
            }),
    {
        self.pid_man.clear();
        self.pid_puback.clear();
        self.pid_pubrec.clear();
        self.pid_pubcomp.clear();
        self.store.clear();
    }

    /// Whether `after` differs from this connection in its topic aliases for
    /// sending at most.
    pub closed spec fn only_topic_alias_send_changed(self, after: Self) -> bool {
        after == (GenericConnection { topic_alias_send: after.topic_alias_send, ..self })
    }

    /// Whether the topic alias may be used for sending: the peer set a topic
    /// alias maximum and the alias is in `1..=maximum`.
    pub fn validate_topic_alias_range(&self, topic_alias: u16) -> (r: bool)
        ensures
            r == (self.spec_topic_alias_send() matches Some(tas) && 1 <= topic_alias <= tas.spec_max()),
    {
        match &self.topic_alias_send {
            None => false,
            Some(tas) => !(topic_alias == 0 || topic_alias > tas.max()),
        }
    }

    /// The topic that an alias given for sending stands for, when the alias
    /// is in range and registered; the alias becomes the most recently used.
    pub fn validate_topic_alias(&mut self, topic_alias_opt: Option<u16>) -> (r: Option<String>)
        ensures
            final(self).wf() == old(self).wf(),
            final(self).spec_status() == old(self).spec_status(),
            r is Some <==> (topic_alias_opt matches Some(ta) && old(self).spec_topic_alias_send() matches Some(tas)
                && 1 <= ta <= tas.spec_max() && exists|i: int|
                0 <= i < tas.spec_entries().len() && tas.spec_entries()[i].0 == ta),
            r matches Some(t) ==> (topic_alias_opt matches Some(ta) && old(self).spec_topic_alias_send() matches Some(
                tas,
            ) && exists|i: int| 0 <= i < tas.spec_entries().len() && tas.spec_entries()[i] == (ta, t@)),
            final(self).spec_topic_alias_send() is Some == old(self).spec_topic_alias_send() is Some,
            old(self).only_topic_alias_send_changed(*final(self)),
    {
        let topic_alias = match topic_alias_opt {
            Some(ta) => ta,
            None => return None,
        };
        if !self.validate_topic_alias_range(topic_alias) {
            return None;
        }
        match &mut self.topic_alias_send {
            Some(tas) => tas.get(topic_alias),
            None => None,
        }
    }

    /// Whether a packet of `size` bytes may be sent to the peer.
    pub fn validate_maximum_packet_size_send(&self, size: usize) -> (r: bool)
        ensures
            r == (size <= self.spec_maximum_packet_size_send()),
    {
        !(size > self.maximum_packet_size_send as usize)
    }

    /// Cancels the timers that run, adding the events that say so.
    fn cancel_timers(&mut self, events: &mut Vec<GenericEvent<PacketIdType>>)
        ensures
            final(events)@ == old(events)@ + cancel_events::<PacketIdType>(
                old(self).spec_timer_flags().0,
                old(self).spec_timer_flags().1,
                old(self).spec_timer_flags().2,
            ),
            *final(self) == (GenericConnection {
                pingreq_send_set: false,
                pingreq_recv_set: false,
                pingresp_recv_set: false,
                ..*old(self)
            }),
    {
        let ghost e0 = events@;
        if self.pingreq_send_set {
            self.pingreq_send_set = false;
            events.push(GenericEvent::RequestTimerCancel(TimerKind::PingreqSend));
        }
        let ghost e1 = events@;
        if self.pingreq_recv_set {
            self.pingreq_recv_set = false;
            events.push(GenericEvent::RequestTimerCancel(TimerKind::PingreqRecv));
        }
        let ghost e2 = events@;
        if self.pingresp_recv_set {
            self.pingresp_recv_set = false;
            events.push(GenericEvent::RequestTimerCancel(TimerKind::PingrespRecv));
        }
        assert(events@ =~= e0 + cancel_events::<PacketIdType>(
            old(self).spec_timer_flags().0,
            old(self).spec_timer_flags().1,
            old(self).spec_timer_flags().2,
        ));
    }

    /// After a packet is sent, a client restarts its PINGREQ send timer with
    /// the interval in force, unless it is 0.
    fn send_post_process(&mut self, events: &mut Vec<GenericEvent<PacketIdType>>)
        ensures
            final(events)@ == old(events)@ + old(self).post_process_events(),
            *final(self) == (GenericConnection {
                pingreq_send_set: old(self).pingreq_send_set || old(self).post_process_events().len() > 0,
                ..*old(self)
            }),
    {
        if self.is_client {
            let mut ms: u64 = self.pingreq_keep_alive_ms;
            if let Some(timeout_ms) = self.pingreq_user_send_interval_ms {
                ms = timeout_ms;
            } else if let Some(timeout_ms) = self.pingreq_server_keep_alive_ms {
                ms = timeout_ms;
            }
            if ms > 0 {
                self.pingreq_send_set = true;
                events.push(GenericEvent::RequestTimerReset { kind: TimerKind::PingreqSend, duration_ms: ms });
            }
        }
    }

    /// Restarts the timer that waits for the client's PINGREQ, when a
    /// timeout is set.
    fn refresh_pingreq_recv(&mut self) -> (r: Vec<GenericEvent<PacketIdType>>)
        ensures
            old(self).spec_pingreq_recv_timeout_ms() != 0 ==> r@ == seq![
                GenericEvent::<PacketIdType>::RequestTimerReset {
                    kind: TimerKind::PingreqRecv,
                    duration_ms: old(self).spec_pingreq_recv_timeout_ms(),
                },
            ] && *final(self) == (GenericConnection { pingreq_recv_set: true, ..*old(self) }),
            old(self).spec_pingreq_recv_timeout_ms() == 0 ==> r@.len() == 0 && *final(self) == *old(self),
    {
        let mut events: Vec<GenericEvent<PacketIdType>> = Vec::new();
        if self.pingreq_recv_timeout_ms != 0 {
            self.pingreq_recv_set = true;
            events.push(GenericEvent::RequestTimerReset {
                kind: TimerKind::PingreqRecv,
                duration_ms: self.pingreq_recv_timeout_ms,
            });
        }
        events
    }

    pub closed spec fn spec_topic_alias_recv(&self) -> Option<TopicAliasRecv> {
        self.topic_alias_recv
    }

    /// Applies the limits this side announces in the properties of the
    /// CONNECT it sends: receive maximum, maximum packet size, topic alias
    /// maximum (when not 0), and a session expiry interval that is not 0
    /// makes the connection store packets.
    #[verifier::rlimit(40)]
    fn apply_own_connect_limits(&mut self, props: &Properties)
        ensures
            final(self).publish_recv_max == (match last_u16(props@, 0, false) {
                Some(v) => Some(v),
                None => old(self).publish_recv_max,
            }),
            final(self).maximum_packet_size_recv == (match last_u32(props@, 0, false) {
                Some(v) => v,
                None => old(self).maximum_packet_size_recv,
            }),
            last_u16(props@, 1, true) matches Some(v) ==> final(self).topic_alias_recv matches Some(t) && t.spec_max() == v
                && t@ == Map::<u16, Seq<char>>::empty(),
            last_u16(props@, 1, true) is None ==> final(self).topic_alias_recv == old(self).topic_alias_recv,
            final(self).need_store == (old(self).need_store || last_u32(props@, 1, true) is Some),
            *final(self) == (GenericConnection {
                publish_recv_max: final(self).publish_recv_max,
                maximum_packet_size_recv: final(self).maximum_packet_size_recv,
                topic_alias_recv: final(self).topic_alias_recv,
                need_store: final(self).need_store,
                ..*old(self)
            }),
    {
        let mut i: usize = 0;
        while i < props.len()
            invariant
                i <= props@.len(),
                self.publish_recv_max == (match last_u16(props@.take(i as int), 0, false) {
                    Some(v) => Some(v),
                    None => old(self).publish_recv_max,
                }),
                self.maximum_packet_size_recv == (match last_u32(props@.take(i as int), 0, false) {
                    Some(v) => v,
                    None => old(self).maximum_packet_size_recv,
                }),
                last_u16(props@.take(i as int), 1, true) matches Some(v) ==> self.topic_alias_recv matches Some(t)
                    && t.spec_max() == v && t@ == Map::<u16, Seq<char>>::empty(),
                last_u16(props@.take(i as int), 1, true) is None ==> self.topic_alias_recv == old(self).topic_alias_recv,
                self.need_store == (old(self).need_store || last_u32(props@.take(i as int), 1, true) is Some),
                *self == (GenericConnection {
                    publish_recv_max: self.publish_recv_max,
                    maximum_packet_size_recv: self.maximum_packet_size_recv,
                    topic_alias_recv: self.topic_alias_recv,
                    need_store: self.need_store,
                    ..*old(self)
                }),
            decreases props@.len() - i,
        {
            proof { lemma_last_step(props@, i as int); }
            match &props[i] {
                Property::TopicAliasMaximum(val) => {
                    if val.val() != 0 {
                        self.topic_alias_recv = Some(TopicAliasRecv::new(val.val()));
                    }
                },
                Property::ReceiveMaximum(val) => {
                    self.publish_recv_max = Some(val.val());
                },
                Property::MaximumPacketSize(val) => {
                    self.maximum_packet_size_recv = val.val();
                },
                Property::SessionExpiryInterval(val) => {
                    if val.val() != 0 {
                        self.need_store = true;
                    }
                },
                _ => {},
            }
            i = i + 1;
        }
        proof { assert(props@.take(i as int) =~= props@); }
    }

    /// Applies the limits the peer announces in the properties of the CONNECT
    /// it sent: receive maximum, maximum packet size, topic alias maximum,
    /// and a session expiry interval that is not 0 makes the connection store
    /// packets.
    #[verifier::rlimit(40)]
    fn apply_peer_connect_limits(&mut self, props: &Properties)
        ensures
            final(self).publish_send_max == (match last_u16(props@, 0, false) {
                Some(v) => Some(v),
                None => old(self).publish_send_max,
            }),
            final(self).maximum_packet_size_send == (match last_u32(props@, 0, false) {
                Some(v) => v,
                None => old(self).maximum_packet_size_send,
            }),
            last_u16(props@, 1, false) matches Some(v) ==> final(self).topic_alias_send matches Some(t) && t.spec_max() == v
                && t.spec_entries().len() == 0,
            last_u16(props@, 1, false) is None ==> final(self).topic_alias_send == old(self).topic_alias_send,
            final(self).need_store == (old(self).need_store || last_u32(props@, 1, true) is Some),
            *final(self) == (GenericConnection {
                publish_send_max: final(self).publish_send_max,
                maximum_packet_size_send: final(self).maximum_packet_size_send,
                topic_alias_send: final(self).topic_alias_send,
                need_store: final(self).need_store,
                ..*old(self)
            }),
    {
        let mut i: usize = 0;
        while i < props.len()
            invariant
                i <= props@.len(),
                self.publish_send_max == (match last_u16(props@.take(i as int), 0, false) {
                    Some(v) => Some(v),
                    None => old(self).publish_send_max,
                }),
                self.maximum_packet_size_send == (match last_u32(props@.take(i as int), 0, false) {
                    Some(v) => v,
                    None => old(self).maximum_packet_size_send,
                }),
                last_u16(props@.take(i as int), 1, false) matches Some(v) ==> self.topic_alias_send matches Some(t)
                    && t.spec_max() == v && t.spec_entries().len() == 0,
                last_u16(props@.take(i as int), 1, false) is None ==> self.topic_alias_send == old(self).topic_alias_send,
                self.need_store == (old(self).need_store || last_u32(props@.take(i as int), 1, true) is Some),
                *self == (GenericConnection {
                    publish_send_max: self.publish_send_max,
                    maximum_packet_size_send: self.maximum_packet_size_send,
                    topic_alias_send: self.topic_alias_send,
                    need_store: self.need_store,
                    ..*old(self)
                }),
            decreases props@.len() - i,
        {
            proof { lemma_last_step(props@, i as int); }
            match &props[i] {
                Property::TopicAliasMaximum(val) => {
                    self.topic_alias_send = Some(TopicAliasSend::new(val.val()));
                },
                Property::ReceiveMaximum(val) => {
                    self.publish_send_max = Some(val.val());
                },
                Property::MaximumPacketSize(val) => {
                    self.maximum_packet_size_send = val.val();
                },
                Property::SessionExpiryInterval(val) => {
                    if val.val() != 0 {
                        self.need_store = true;
                    }
                },
                _ => {},
            }
            i = i + 1;
        }
        proof { assert(props@.take(i as int) =~= props@); }
    }

    /// Tells the connection that the underlying connection was closed: the
    /// limits are reset, the status becomes disconnected, topic aliases are
    /// forgotten, the identifiers of SUBSCRIBE and UNSUBSCRIBE waiting for
    /// their answer are released, and so are those of the QoS 1 and 2 flows
    /// unless the session is stored; the timers are cancelled.
    #[verifier::spinoff_prover]
    #[verifier::rlimit(60)]
    pub fn notify_closed(&mut self) -> (r: Vec<GenericEvent<PacketIdType>>)
        ensures
            final(self).wf() == old(self).wf(),
            final(self).spec_status() == ConnectionStatus::Disconnected,
            final(self).spec_maximum_packet_size_send() == MQTT_PACKET_SIZE_NO_LIMIT,
            final(self).spec_maximum_packet_size_recv() == MQTT_PACKET_SIZE_NO_LIMIT,
            final(self).spec_topic_alias_send() is None,
            !final(self).spec_has_topic_alias_recv(),
            final(self).spec_pid_suback() == Set::<u32>::empty(),
            final(self).spec_pid_unsuback() == Set::<u32>::empty(),
            !old(self).spec_need_store() ==> {
                &&& final(self).spec_qos2_publish_handled() == Set::<u32>::empty()
                &&& final(self).spec_pid_puback() == Set::<u32>::empty()
                &&& final(self).spec_pid_pubrec() == Set::<u32>::empty()
                &&& final(self).spec_pid_pubcomp() == Set::<u32>::empty()
                &&& final(self).spec_pid_used() == old(self).spec_pid_used().difference(old(self).spec_pid_suback()).difference(
                    old(self).spec_pid_unsuback(),
                ).difference(old(self).spec_pid_puback()).difference(old(self).spec_pid_pubrec()).difference(
                    old(self).spec_pid_pubcomp(),
                )
            },
            old(self).spec_need_store() ==> {
                &&& final(self).spec_qos2_publish_handled() == old(self).spec_qos2_publish_handled()
                &&& final(self).spec_pid_puback() == old(self).spec_pid_puback()
                &&& final(self).spec_pid_pubrec() == old(self).spec_pid_pubrec()
                &&& final(self).spec_pid_pubcomp() == old(self).spec_pid_pubcomp()
                &&& final(self).spec_pid_used() == old(self).spec_pid_used().difference(old(self).spec_pid_suback()).difference(
                    old(self).spec_pid_unsuback(),
                )
            },
            final(self).spec_timer_flags() == (false, false, false),
            final(self).spec_store() == old(self).spec_store(),
            final(self).spec_need_store() == old(self).spec_need_store(),
            final(self).spec_protocol_version() == old(self).spec_protocol_version(),
            ({
                let cancels = cancel_events::<PacketIdType>(
                    old(self).spec_timer_flags().0,
                    old(self).spec_timer_flags().1,
                    old(self).spec_timer_flags().2,
                );
                &&& r@.len() >= cancels.len()
                &&& r@.skip(r@.len() - cancels.len()) == cancels
                &&& releases_exactly(r@.take(r@.len() - cancels.len()), old(self).spec_pid_used().intersect(old(self).closed_release_ids()))
            }),
    {
        let ghost used0 = self.spec_pid_used();
        let ghost old_self = *self;
        let mut events: Vec<GenericEvent<PacketIdType>> = Vec::new();
        self.maximum_packet_size_send = MQTT_PACKET_SIZE_NO_LIMIT;
        self.maximum_packet_size_recv = MQTT_PACKET_SIZE_NO_LIMIT;
        self.status = ConnectionStatus::Disconnected;
        self.topic_alias_send = None;
        self.topic_alias_recv = None;
        let ghost mut done = Set::<u32>::empty();
        proof {
            assert(used0.intersect(done) =~= Set::<u32>::empty());
            assert(used0.difference(done) =~= used0);
            assert(events@ =~= Seq::<GenericEvent<PacketIdType>>::empty());
        }
        let ids = self.pid_suback.drain();
        self.release_ids_step(&ids, &mut events, Ghost(used0), Ghost(done));
        proof {
            done = done.union(ids@.to_set());
        }
        let ids = self.pid_unsuback.drain();
        self.release_ids_step(&ids, &mut events, Ghost(used0), Ghost(done));
        proof {
            done = done.union(ids@.to_set());
        }
        if !self.need_store {
            self.qos2_publish_handled.clear();
            let ids = self.pid_puback.drain();
            self.release_ids_step(&ids, &mut events, Ghost(used0), Ghost(done));
            proof {
                done = done.union(ids@.to_set());
            }
            let ids = self.pid_pubrec.drain();
            self.release_ids_step(&ids, &mut events, Ghost(used0), Ghost(done));
            proof {
                done = done.union(ids@.to_set());
            }
            let ids = self.pid_pubcomp.drain();
            self.release_ids_step(&ids, &mut events, Ghost(used0), Ghost(done));
            proof {
                done = done.union(ids@.to_set());
            }
        }
        proof {
            assert(done =~= old_self.closed_release_ids());
        }
        let ghost rel = events@;
        self.cancel_timers(&mut events);
        proof {
            assert(events@.take(events@.len() - (events@.len() - rel.len())) =~= rel);
            assert(events@.skip(rel.len() as int) =~= events@.skip(events@.len() - (events@.len() - rel.len())));
        }
        events
    }

    fn release_ids_step(
        &mut self,
        ids: &Vec<u32>,
        events: &mut Vec<GenericEvent<PacketIdType>>,
        Ghost(used0): Ghost<Set<u32>>,
        Ghost(done): Ghost<Set<u32>>,
    )
        requires
            releases_exactly(old(events)@, used0.intersect(done)),
            old(self).spec_pid_used() == used0.difference(done),
        ensures
            releases_exactly(final(events)@, used0.intersect(done.union(ids@.to_set()))),
            final(self).spec_pid_used() == used0.difference(done.union(ids@.to_set())),
            *final(self) == (GenericConnection { pid_man: final(self).pid_man, ..*old(self) }),
    {
        let ghost prev = events@;
        self.release_ids_checked(ids, events);
        proof {
            assert(events@ =~= prev + events@.skip(prev.len() as int));
            lemma_release_step(prev, events@.skip(prev.len() as int), used0, done, ids@.to_set());
            assert(self.spec_pid_used() =~= used0.difference(done.union(ids@.to_set())));
        }
    }

    /// The identifiers that `notify_closed` gives back: those waiting for a
    /// SUBACK or UNSUBACK, and unless the session is stored, those of the
    /// QoS 1 and 2 flows.
    pub open spec fn closed_release_ids(self) -> Set<u32> {
        self.spec_pid_suback().union(self.spec_pid_unsuback()).union(
            if self.spec_need_store() {
                Set::<u32>::empty()
            } else {
                self.spec_pid_puback().union(self.spec_pid_pubrec()).union(self.spec_pid_pubcomp())
            },
        )
    }

    /// Releases each identifier of `ids` (those out of range of the packet
    /// identifier type are never in use) that is in use, adding an event for each.
    fn release_ids_checked(&mut self, ids: &Vec<u32>, events: &mut Vec<GenericEvent<PacketIdType>>)
        ensures
            final(self).spec_pid_used() == old(self).spec_pid_used().difference(ids@.to_set()),
            *final(self) == (GenericConnection { pid_man: final(self).pid_man, ..*old(self) }),
            final(events)@.len() >= old(events)@.len(),
            final(events)@.take(old(events)@.len() as int) == old(events)@,
            releases_exactly(final(events)@.skip(old(events)@.len() as int), old(self).spec_pid_used().intersect(ids@.to_set())),
    {
        let max = PacketIdType::max_value();
        self.pid_man.lemma_in_range();
        let ghost e0 = events@;
        let ghost used0 = self.spec_pid_used();
        let mut i: usize = 0;
        proof {
            assert(events@.skip(e0.len() as int) =~= Seq::<GenericEvent<PacketIdType>>::empty());
            assert(ids@.take(0).to_set() =~= Set::<u32>::empty());
            assert(used0.intersect(ids@.take(0).to_set()) =~= Set::<u32>::empty());
        }
        while i < ids.len()
            invariant
                i <= ids@.len(),
                max == crate::packet::packet_id::pid_max(PacketIdType::spec_width()),
                forall|v: u32| #[trigger] self.spec_pid_used().contains(v) ==> 1 <= v && v as nat <= crate::packet::packet_id::pid_max(PacketIdType::spec_width()),
                used0 == old(self).spec_pid_used(),
                forall|v: u32| #[trigger] used0.contains(v) ==> 1 <= v && v as nat <= crate::packet::packet_id::pid_max(PacketIdType::spec_width()),
                self.spec_pid_used() == used0.difference(ids@.take(i as int).to_set()),
                *self == (GenericConnection { pid_man: self.pid_man, ..*old(self) }),
                e0 == old(events)@,
                events@.len() >= e0.len(),
                events@.take(e0.len() as int) == e0,
                releases_exactly(events@.skip(e0.len() as int), used0.intersect(ids@.take(i as int).to_set())),
            decreases ids@.len() - i,
        {
            let v = ids[i];
            let ghost before = events@;
            proof {
                assert(ids@.take(i + 1) =~= ids@.take(i as int).push(ids@[i as int]));
                lemma_push_to_set(ids@.take(i as int), ids@[i as int]);
            }
            if v <= max {
                let id = PacketIdType::from_value(v);
                if self.pid_man.is_used_id(id) {
                    proof { assert(!used0.intersect(ids@.take(i as int).to_set()).contains(v)); }
                    self.pid_man.release_id(id);
                    events.push(GenericEvent::NotifyPacketIdReleased(id));
                    proof {
                        assert(events@.skip(e0.len() as int) =~= before.skip(e0.len() as int).push(GenericEvent::NotifyPacketIdReleased(id)));
                        lemma_releases_push(before.skip(e0.len() as int), used0.intersect(ids@.take(i as int).to_set()), id);
                        assert(used0.intersect(ids@.take(i + 1).to_set()) =~= used0.intersect(ids@.take(i as int).to_set()).insert(v));
                        assert(events@.take(e0.len() as int) =~= e0);
                    }
                } else {
                    proof {
                        assert(used0.intersect(ids@.take(i + 1).to_set()) =~= used0.intersect(ids@.take(i as int).to_set()));
                    }
                }
            } else {
                proof {
                    assert(!used0.contains(v));
                    assert(used0.intersect(ids@.take(i + 1).to_set()) =~= used0.intersect(ids@.take(i as int).to_set()));
                }
            }
            proof {
                assert(used0.difference(ids@.take(i + 1).to_set()) =~= used0.difference(
                    ids@.take(i as int).to_set(),
                ).remove(ids@[i as int]));
            }
            i = i + 1;
        }
        assert(ids@.take(i as int) =~= ids@);
    }

    /// The connection after `send_post_process`.
    pub closed spec fn after_post_process(self) -> Self {
        GenericConnection {
            pingreq_send_set: self.pingreq_send_set || self.post_process_events().len() > 0,
            ..self
        }
    }

    /// What sending a packet that needs only a connected state does: refuse
    /// it as too large (when `check_size`), or as not allowed when not
    /// connected, else ask to send it.
    pub open spec fn simple_send_outcome(
        self,
        after: Self,
        packet: GenericPacket<PacketIdType>,
        check_size: bool,
        r: Seq<GenericEvent<PacketIdType>>,
    ) -> bool {
        if check_size && packet.spec_size() > self.spec_maximum_packet_size_send() {
            r == seq![GenericEvent::<PacketIdType>::NotifyError(MqttError::PacketTooLarge)] && after == self
        } else if self.spec_status() != ConnectionStatus::Connected {
            r == seq![GenericEvent::<PacketIdType>::NotifyError(MqttError::PacketNotAllowedToSend)] && after == self
        } else {
            r == seq![
                GenericEvent::RequestSendPacket { packet: packet, release_packet_id_if_send_error: None },
            ] + self.post_process_events() && after == self.after_post_process()
        }
    }

    /// Sends a packet that needs only a connected state.
    fn send_simple(&mut self, packet: GenericPacket<PacketIdType>, check_size: bool) -> (r: Vec<GenericEvent<PacketIdType>>)
        ensures
            final(self).wf() == old(self).wf(),
            old(self).simple_send_outcome(*final(self), packet, check_size, r@),
    {
        let mut events: Vec<GenericEvent<PacketIdType>> = Vec::new();
        if check_size && !self.validate_maximum_packet_size_send(packet.size()) {
            events.push(GenericEvent::NotifyError(MqttError::PacketTooLarge));
            return events;
        }
        if self.status != ConnectionStatus::Connected {
            events.push(GenericEvent::NotifyError(MqttError::PacketNotAllowedToSend));
            return events;
        }
        events.push(GenericEvent::RequestSendPacket { packet, release_packet_id_if_send_error: None });
        self.send_post_process(&mut events);
        events
    }

    /// Sends a v3.1.1 PUBACK.
    fn process_send_v3_1_1_puback(&mut self, packet: ControlPacket<PacketIdType>) -> (r: Vec<GenericEvent<PacketIdType>>)
        ensures
            final(self).wf() == old(self).wf(),
            old(self).simple_send_outcome(*final(self), GenericPacket::Control(packet), false, r@),
    {
        self.send_simple(GenericPacket::Control(packet), false)
    }

    /// Sends a v3.1.1 PUBREC.
    fn process_send_v3_1_1_pubrec(&mut self, packet: ControlPacket<PacketIdType>) -> (r: Vec<GenericEvent<PacketIdType>>)
        ensures
            final(self).wf() == old(self).wf(),
            old(self).simple_send_outcome(*final(self), GenericPacket::Control(packet), false, r@),
    {
        self.send_simple(GenericPacket::Control(packet), false)
    }

    /// Sends a v3.1.1 PUBCOMP.
    fn process_send_v3_1_1_pubcomp(&mut self, packet: ControlPacket<PacketIdType>) -> (r: Vec<GenericEvent<PacketIdType>>)
        ensures
            final(self).wf() == old(self).wf(),
            old(self).simple_send_outcome(*final(self), GenericPacket::Control(packet), false, r@),
    {
        self.send_simple(GenericPacket::Control(packet), false)
    }

    /// Sends a v3.1.1 SUBACK.
    fn process_send_v3_1_1_suback(&mut self, packet: ControlPacket<PacketIdType>) -> (r: Vec<GenericEvent<PacketIdType>>)
        ensures
            final(self).wf() == old(self).wf(),
            old(self).simple_send_outcome(*final(self), GenericPacket::Control(packet), false, r@),
    {
        self.send_simple(GenericPacket::Control(packet), false)
    }

    /// Sends a v5.0 SUBACK.
    fn process_send_v5_0_suback(&mut self, packet: ControlPacket<PacketIdType>) -> (r: Vec<GenericEvent<PacketIdType>>)
        ensures
            final(self).wf() == old(self).wf(),
            old(self).simple_send_outcome(*final(self), GenericPacket::Control(packet), true, r@),
    {
        self.send_simple(GenericPacket::Control(packet), true)
    }

    /// Sends a v3.1.1 UNSUBACK.
    fn process_send_v3_1_1_unsuback(&mut self, packet: ControlPacket<PacketIdType>) -> (r: Vec<GenericEvent<PacketIdType>>)
        ensures
            final(self).wf() == old(self).wf(),
            old(self).simple_send_outcome(*final(self), GenericPacket::Control(packet), false, r@),
    {
        self.send_simple(GenericPacket::Control(packet), false)
    }

    /// Sends a v5.0 UNSUBACK.
    fn process_send_v5_0_unsuback(&mut self, packet: ControlPacket<PacketIdType>) -> (r: Vec<GenericEvent<PacketIdType>>)
        ensures
            final(self).wf() == old(self).wf(),
            old(self).simple_send_outcome(*final(self), GenericPacket::Control(packet), true, r@),
    {
        self.send_simple(GenericPacket::Control(packet), true)
    }

    /// Sends a v3.1.1 PINGRESP.
    fn process_send_v3_1_1_pingresp(&mut self, packet: ControlPacket<PacketIdType>) -> (r: Vec<GenericEvent<PacketIdType>>)
        ensures
            final(self).wf() == old(self).wf(),
            old(self).simple_send_outcome(*final(self), GenericPacket::Control(packet), false, r@),
    {
        self.send_simple(GenericPacket::Control(packet), false)
    }

    /// Sends a v5.0 PINGRESP.
    fn process_send_v5_0_pingresp(&mut self, packet: ControlPacket<PacketIdType>) -> (r: Vec<GenericEvent<PacketIdType>>)
        ensures
            final(self).wf() == old(self).wf(),
            old(self).simple_send_outcome(*final(self), GenericPacket::Control(packet), true, r@),
    {
        self.send_simple(GenericPacket::Control(packet), true)
    }

    /// What sending a v5.0 PUBACK, PUBREC or PUBCOMP for identifier `id` does:
    /// the same as a simple send, and when it is sent the received PUBLISH
    /// with that identifier stops counting against the receive maximum (and
    /// for a PUBREC with a failure reason code, it is no longer handled).
    pub open spec fn ack_send_outcome(
        self,
        after: Self,
        packet: ControlPacket<PacketIdType>,
        id: u32,
        release_handled: bool,
        r: Seq<GenericEvent<PacketIdType>>,
    ) -> bool {
        let p = GenericPacket::Control(packet);
        if p.spec_size() > self.spec_maximum_packet_size_send() {
            r == seq![GenericEvent::<PacketIdType>::NotifyError(MqttError::PacketTooLarge)] && after == self
        } else if self.spec_status() != ConnectionStatus::Connected {
            r == seq![GenericEvent::<PacketIdType>::NotifyError(MqttError::PacketNotAllowedToSend)] && after == self
        } else {
            &&& r == seq![
                GenericEvent::RequestSendPacket { packet: p, release_packet_id_if_send_error: None },
            ] + self.post_process_events()
            &&& after.spec_publish_recv() == self.spec_publish_recv().remove(id)
            &&& after.spec_qos2_publish_handled() == (if release_handled {
                self.spec_qos2_publish_handled().remove(id)
            } else {
                self.spec_qos2_publish_handled()
            })
            &&& after.spec_status() == self.spec_status()
            &&& after.spec_pid_used() == self.spec_pid_used()
            &&& after.spec_store() == self.spec_store()
        }
    }

    /// Sends a v5.0 PUBACK, PUBREC or PUBCOMP.
    fn send_v5_ack(&mut self, packet: ControlPacket<PacketIdType>, release_handled: bool) -> (r: Vec<GenericEvent<PacketIdType>>)
        requires
            type_has_pid_spec(packet.spec_packet_type()),
        ensures
            final(self).wf() == old(self).wf(),
            old(self).ack_send_outcome(*final(self), packet, packet.spec_packet_id().unwrap().spec_value() as u32, release_handled, r@),
            final(self).spec_topic_alias_recv() == old(self).spec_topic_alias_recv(),
            final(self).spec_pingreq_recv_timeout_ms() == old(self).spec_pingreq_recv_timeout_ms(),
    {
        let mut events: Vec<GenericEvent<PacketIdType>> = Vec::new();
        if !self.validate_maximum_packet_size_send(packet.size()) {
            events.push(GenericEvent::NotifyError(MqttError::PacketTooLarge));
            return events;
        }
        if self.status != ConnectionStatus::Connected {
            events.push(GenericEvent::NotifyError(MqttError::PacketNotAllowedToSend));
            return events;
        }
        let id = packet.packet_id().unwrap().value();
        self.publish_recv.remove(id);
        if release_handled {
            self.qos2_publish_handled.remove(id);
        }
        events.push(GenericEvent::RequestSendPacket {
            packet: GenericPacket::Control(packet),
            release_packet_id_if_send_error: None,
        });
        self.send_post_process(&mut events);
        events
    }

    /// Sends a v5.0 PUBACK.
    fn process_send_v5_0_puback(&mut self, packet: ControlPacket<PacketIdType>) -> (r: Vec<GenericEvent<PacketIdType>>)
        requires
            packet.spec_packet_type() == 4,
        ensures
            final(self).wf() == old(self).wf(),
            old(self).ack_send_outcome(*final(self), packet, packet.spec_packet_id().unwrap().spec_value() as u32, false, r@),
            final(self).spec_topic_alias_recv() == old(self).spec_topic_alias_recv(),
            final(self).spec_pingreq_recv_timeout_ms() == old(self).spec_pingreq_recv_timeout_ms(),
    {
        self.send_v5_ack(packet, false)
    }

    /// Sends a v5.0 PUBREC.
    fn process_send_v5_0_pubrec(&mut self, packet: ControlPacket<PacketIdType>) -> (r: Vec<GenericEvent<PacketIdType>>)
        requires
            packet.spec_packet_type() == 5,
        ensures
            final(self).wf() == old(self).wf(),
            old(self).ack_send_outcome(
                *final(self),
                packet,
                packet.spec_packet_id().unwrap().spec_value() as u32,
                packet.spec_reason_code() matches Some(rc) && rc >= 0x80,
                r@,
            ),
            final(self).spec_topic_alias_recv() == old(self).spec_topic_alias_recv(),
            final(self).spec_pingreq_recv_timeout_ms() == old(self).spec_pingreq_recv_timeout_ms(),
    {
        let failure = match packet.reason_code() {
            Some(rc) => rc >= 0x80,
            None => false,
        };
        if failure {
            self.send_v5_ack(packet, true)
        } else {
            let r = self.send_v5_ack(packet, false);
            r
        }
    }

    /// Sends a v5.0 PUBCOMP.
    fn process_send_v5_0_pubcomp(&mut self, packet: ControlPacket<PacketIdType>) -> (r: Vec<GenericEvent<PacketIdType>>)
        requires
            packet.spec_packet_type() == 7,
        ensures
            final(self).wf() == old(self).wf(),
            old(self).ack_send_outcome(*final(self), packet, packet.spec_packet_id().unwrap().spec_value() as u32, false, r@),
    {
        self.send_v5_ack(packet, false)
    }

    /// What sending a PUBREL does: refused when too large (v5.0), when
    /// neither connected nor storing, or when its identifier is not in use;
    /// otherwise stored when storing, and sent when connected, the PUBCOMP
    /// then being awaited.
    pub open spec fn pubrel_send_outcome(
        self,
        after: Self,
        packet: ControlPacket<PacketIdType>,
        check_size: bool,
        r: Seq<GenericEvent<PacketIdType>>,
    ) -> bool {
        let p = GenericPacket::Control(packet);
        let id = packet.spec_packet_id().unwrap().spec_value() as u32;
        if check_size && p.spec_size() > self.spec_maximum_packet_size_send() {
            r == seq![GenericEvent::<PacketIdType>::NotifyError(MqttError::PacketTooLarge)] && after == self
        } else if self.spec_status() != ConnectionStatus::Connected && !self.spec_need_store() {
            r == seq![GenericEvent::<PacketIdType>::NotifyError(MqttError::PacketNotAllowedToSend)] && after == self
        } else if !self.spec_pid_used().contains(id) {
            r == seq![GenericEvent::<PacketIdType>::NotifyError(MqttError::PacketIdentifierInvalid)] && after == self
        } else {
            let key = (if packet.spec_v5() { ResponsePacket::V5_0Pubcomp } else { ResponsePacket::V3_1_1Pubcomp }, packet.spec_packet_id().unwrap().spec_value());
            &&& r == (if self.spec_status() == ConnectionStatus::Connected {
                seq![GenericEvent::RequestSendPacket { packet: p, release_packet_id_if_send_error: None }]
            } else {
                Seq::<GenericEvent<PacketIdType>>::empty()
            }) + self.post_process_events()
            &&& after.spec_store() == (if self.spec_need_store() && !self.spec_store().contains(key) {
                self.spec_store().push(key)
            } else {
                self.spec_store()
            })
            &&& after.spec_pid_pubcomp() == (if self.spec_status() == ConnectionStatus::Connected {
                self.spec_pid_pubcomp().insert(id)
            } else {
                self.spec_pid_pubcomp()
            })
            &&& after.spec_status() == self.spec_status()
            &&& after.spec_pid_used() == self.spec_pid_used()
        }
    }

    /// Sends a PUBREL of either version.
    fn send_pubrel(&mut self, packet: ControlPacket<PacketIdType>, check_size: bool) -> (r: Vec<GenericEvent<PacketIdType>>)
        requires
            packet.spec_packet_type() == 6,
        ensures
            final(self).wf() == old(self).wf(),
            old(self).pubrel_send_outcome(*final(self), packet, check_size, r@),
    {
        let mut events: Vec<GenericEvent<PacketIdType>> = Vec::new();
        if check_size && !self.validate_maximum_packet_size_send(packet.size()) {
            events.push(GenericEvent::NotifyError(MqttError::PacketTooLarge));
            return events;
        }
        if self.status != ConnectionStatus::Connected && !self.need_store {
            events.push(GenericEvent::NotifyError(MqttError::PacketNotAllowedToSend));
            return events;
        }
        let packet_id = packet.packet_id().unwrap();
        if !self.pid_man.is_used_id(packet_id) {
            events.push(GenericEvent::NotifyError(MqttError::PacketIdentifierInvalid));
            return events;
        }
        if self.need_store {
            proof { PacketIdType::lemma_packet_id(packet_id); }
            let stored = if packet.is_v5() {
                GenericStorePacket::V5_0Pubrel(packet.duplicate())
            } else {
                GenericStorePacket::V3_1_1Pubrel(packet.duplicate())
            };
            let _ = self.store.add(stored);
        }
        let ghost gp = GenericPacket::Control(packet);
        let ghost mid = *self;
        if self.status == ConnectionStatus::Connected {
            self.pid_pubcomp.insert(packet_id.value());
            events.push(GenericEvent::RequestSendPacket {
                packet: GenericPacket::Control(packet),
                release_packet_id_if_send_error: None,
            });
        }
        let ghost pre = events@;
        assert(self.post_process_events() == old(self).post_process_events());
        self.send_post_process(&mut events);
        assert(events@ =~= pre + old(self).post_process_events());
        events
    }

    /// Sends a v3.1.1 PUBREL.
    fn process_send_v3_1_1_pubrel(&mut self, packet: ControlPacket<PacketIdType>) -> (r: Vec<GenericEvent<PacketIdType>>)
        requires
            packet.spec_packet_type() == 6,
        ensures
            final(self).wf() == old(self).wf(),
            old(self).pubrel_send_outcome(*final(self), packet, false, r@),
    {
        self.send_pubrel(packet, false)
    }

    /// Sends a v5.0 PUBREL.
    fn process_send_v5_0_pubrel(&mut self, packet: ControlPacket<PacketIdType>) -> (r: Vec<GenericEvent<PacketIdType>>)
        requires
            packet.spec_packet_type() == 6,
        ensures
            final(self).wf() == old(self).wf(),
            old(self).pubrel_send_outcome(*final(self), packet, true, r@),
    {
        self.send_pubrel(packet, true)
    }

    /// What sending a SUBSCRIBE (`is_sub`) or UNSUBSCRIBE does: refused when
    /// too large (v5.0); refused when not connected, its identifier then
    /// being released; refused when its identifier is not in use; otherwise
    /// sent, its answer being awaited.
    pub open spec fn sub_send_outcome(
        self,
        after: Self,
        packet: ControlPacket<PacketIdType>,
        check_size: bool,
        is_sub: bool,
        r: Seq<GenericEvent<PacketIdType>>,
    ) -> bool {
        let p = GenericPacket::Control(packet);
        let pid = packet.spec_packet_id().unwrap();
        let id = pid.spec_value() as u32;
        if check_size && p.spec_size() > self.spec_maximum_packet_size_send() {
            r == seq![GenericEvent::<PacketIdType>::NotifyError(MqttError::PacketTooLarge)] && after == self
        } else if self.spec_status() != ConnectionStatus::Connected {
            &&& r == seq![GenericEvent::<PacketIdType>::NotifyError(MqttError::PacketNotAllowedToSend)] + (if self.spec_pid_used().contains(id) {
                seq![GenericEvent::NotifyPacketIdReleased(pid)]
            } else {
                Seq::<GenericEvent<PacketIdType>>::empty()
            })
            &&& after.spec_pid_used() == self.spec_pid_used().remove(id)
            &&& after.spec_status() == self.spec_status()
        } else if !self.spec_pid_used().contains(id) {
            r == seq![GenericEvent::<PacketIdType>::NotifyError(MqttError::PacketIdentifierInvalid)] && after == self
        } else {
            &&& r == seq![
                GenericEvent::RequestSendPacket { packet: p, release_packet_id_if_send_error: Some(pid) },
            ] + self.post_process_events()
            &&& after.spec_pid_suback() == (if is_sub { self.spec_pid_suback().insert(id) } else { self.spec_pid_suback() })
            &&& after.spec_pid_unsuback() == (if is_sub { self.spec_pid_unsuback() } else { self.spec_pid_unsuback().insert(id) })
            &&& after.spec_pid_used() == self.spec_pid_used()
            &&& after.spec_status() == self.spec_status()
        }
    }

    /// Sends a SUBSCRIBE or UNSUBSCRIBE of either version.
    fn send_sub(&mut self, packet: ControlPacket<PacketIdType>, check_size: bool, is_sub: bool) -> (r: Vec<GenericEvent<PacketIdType>>)
        requires
            type_has_pid_spec(packet.spec_packet_type()),
        ensures
            final(self).wf() == old(self).wf(),
            old(self).sub_send_outcome(*final(self), packet, check_size, is_sub, r@),
    {
        let mut events: Vec<GenericEvent<PacketIdType>> = Vec::new();
        if check_size && !self.validate_maximum_packet_size_send(packet.size()) {
            events.push(GenericEvent::NotifyError(MqttError::PacketTooLarge));
            return events;
        }
        let packet_id = packet.packet_id().unwrap();
        if self.status != ConnectionStatus::Connected {
            events.push(GenericEvent::NotifyError(MqttError::PacketNotAllowedToSend));
            let released = self.release_packet_id(packet_id);
            proof { assert(events@ + released@ =~= seq![GenericEvent::<PacketIdType>::NotifyError(MqttError::PacketNotAllowedToSend)] + released@); }
            let mut released = released;
            events.append(&mut released);
            return events;
        }
        if !self.pid_man.is_used_id(packet_id) {
            events.push(GenericEvent::NotifyError(MqttError::PacketIdentifierInvalid));
            return events;
        }
        if is_sub {
            self.pid_suback.insert(packet_id.value());
        } else {
            self.pid_unsuback.insert(packet_id.value());
        }
        events.push(GenericEvent::RequestSendPacket {
            packet: GenericPacket::Control(packet),
            release_packet_id_if_send_error: Some(packet_id),
        });
        self.send_post_process(&mut events);
        events
    }

    /// Sends a v3.1.1 SUBSCRIBE.
    fn process_send_v3_1_1_subscribe(&mut self, packet: ControlPacket<PacketIdType>) -> (r: Vec<GenericEvent<PacketIdType>>)
        requires
            packet.spec_packet_type() == 8,
        ensures
            final(self).wf() == old(self).wf(),
            old(self).sub_send_outcome(*final(self), packet, false, true, r@),
    {
        self.send_sub(packet, false, true)
    }

    /// Sends a v5.0 SUBSCRIBE.
    fn process_send_v5_0_subscribe(&mut self, packet: ControlPacket<PacketIdType>) -> (r: Vec<GenericEvent<PacketIdType>>)
        requires
            packet.spec_packet_type() == 8,
        ensures
            final(self).wf() == old(self).wf(),
            old(self).sub_send_outcome(*final(self), packet, true, true, r@),
    {
        self.send_sub(packet, true, true)
    }

    /// Sends a v3.1.1 UNSUBSCRIBE.
    fn process_send_v3_1_1_unsubscribe(&mut self, packet: ControlPacket<PacketIdType>) -> (r: Vec<GenericEvent<PacketIdType>>)
        requires
            packet.spec_packet_type() == 10,
        ensures
            final(self).wf() == old(self).wf(),
            old(self).sub_send_outcome(*final(self), packet, false, false, r@),
    {
        self.send_sub(packet, false, false)
    }

    /// Sends a v5.0 UNSUBSCRIBE.
    fn process_send_v5_0_unsubscribe(&mut self, packet: ControlPacket<PacketIdType>) -> (r: Vec<GenericEvent<PacketIdType>>)
        requires
            packet.spec_packet_type() == 10,
        ensures
            final(self).wf() == old(self).wf(),
            old(self).sub_send_outcome(*final(self), packet, true, false, r@),
    {
        self.send_sub(packet, true, false)
    }

    /// What sending a PINGREQ does: refused when too large (v5.0) or not
    /// connected; otherwise sent, and the PINGRESP timer started when a
    /// timeout is set.
    pub open spec fn pingreq_send_outcome(
        self,
        after: Self,
        packet: ControlPacket<PacketIdType>,
        check_size: bool,
        r: Seq<GenericEvent<PacketIdType>>,
    ) -> bool {
        let p = GenericPacket::Control(packet);
        if check_size && p.spec_size() > self.spec_maximum_packet_size_send() {
            r == seq![GenericEvent::<PacketIdType>::NotifyError(MqttError::PacketTooLarge)] && after == self
        } else if self.spec_status() != ConnectionStatus::Connected {
            r == seq![GenericEvent::<PacketIdType>::NotifyError(MqttError::PacketNotAllowedToSend)] && after == self
        } else {
            &&& r == seq![GenericEvent::RequestSendPacket { packet: p, release_packet_id_if_send_error: None }] + (
            if self.spec_pingresp_recv_timeout_ms() != 0 {
                seq![
                    GenericEvent::<PacketIdType>::RequestTimerReset {
                        kind: TimerKind::PingrespRecv,
                        duration_ms: self.spec_pingresp_recv_timeout_ms(),
                    },
                ]
            } else {
                Seq::<GenericEvent<PacketIdType>>::empty()
            }) + self.post_process_events()
            &&& after.spec_timer_flags().2 == (self.spec_timer_flags().2 || self.spec_pingresp_recv_timeout_ms() != 0)
            &&& after.spec_status() == self.spec_status()
        }
    }

    /// Sends a PINGREQ of either version.
    fn send_pingreq(&mut self, packet: ControlPacket<PacketIdType>, check_size: bool) -> (r: Vec<GenericEvent<PacketIdType>>)
        ensures
            final(self).wf() == old(self).wf(),
            old(self).pingreq_send_outcome(*final(self), packet, check_size, r@),
    {
        let mut events: Vec<GenericEvent<PacketIdType>> = Vec::new();
        if check_size && !self.validate_maximum_packet_size_send(packet.size()) {
            events.push(GenericEvent::NotifyError(MqttError::PacketTooLarge));
            return events;
        }
        if self.status != ConnectionStatus::Connected {
            events.push(GenericEvent::NotifyError(MqttError::PacketNotAllowedToSend));
            return events;
        }
        let ghost gp = GenericPacket::Control(packet);
        events.push(GenericEvent::RequestSendPacket {
            packet: GenericPacket::Control(packet),
            release_packet_id_if_send_error: None,
        });
        if self.pingresp_recv_timeout_ms != 0 {
            self.pingresp_recv_set = true;
            events.push(GenericEvent::RequestTimerReset {
                kind: TimerKind::PingrespRecv,
                duration_ms: self.pingresp_recv_timeout_ms,
            });
        }
        let ghost pre = events@;
        assert(pre =~= seq![GenericEvent::RequestSendPacket { packet: gp, release_packet_id_if_send_error: None }] + (
            if old(self).spec_pingresp_recv_timeout_ms() != 0 {
                seq![
                    GenericEvent::<PacketIdType>::RequestTimerReset {
                        kind: TimerKind::PingrespRecv,
                        duration_ms: old(self).spec_pingresp_recv_timeout_ms(),
                    },
                ]
            } else {
                Seq::<GenericEvent<PacketIdType>>::empty()
            }));
        assert(self.post_process_events() == old(self).post_process_events());
        self.send_post_process(&mut events);
        events
    }

    /// Sends a v3.1.1 PINGREQ.
    fn process_send_v3_1_1_pingreq(&mut self, packet: ControlPacket<PacketIdType>) -> (r: Vec<GenericEvent<PacketIdType>>)
        ensures
            final(self).wf() == old(self).wf(),
            old(self).pingreq_send_outcome(*final(self), packet, false, r@),
    {
        self.send_pingreq(packet, false)
    }

    /// Sends a v5.0 PINGREQ.
    fn process_send_v5_0_pingreq(&mut self, packet: ControlPacket<PacketIdType>) -> (r: Vec<GenericEvent<PacketIdType>>)
        ensures
            final(self).wf() == old(self).wf(),
            old(self).pingreq_send_outcome(*final(self), packet, true, r@),
    {
        self.send_pingreq(packet, true)
    }

    /// What sending a DISCONNECT does: refused when too large (v5.0) or not
    /// connected; otherwise the connection becomes disconnected, the timers
    /// are cancelled, the packet is sent and closing is asked for.
    pub open spec fn disconnect_send_outcome(
        self,
        after: Self,
        packet: ControlPacket<PacketIdType>,
        check_size: bool,
        r: Seq<GenericEvent<PacketIdType>>,
    ) -> bool {
        let p = GenericPacket::Control(packet);
        if check_size && p.spec_size() > self.spec_maximum_packet_size_send() {
            r == seq![GenericEvent::<PacketIdType>::NotifyError(MqttError::PacketTooLarge)] && after == self
        } else if self.spec_status() != ConnectionStatus::Connected {
            r == seq![GenericEvent::<PacketIdType>::NotifyError(MqttError::PacketNotAllowedToSend)] && after == self
        } else {
            &&& r == cancel_events::<PacketIdType>(
                self.spec_timer_flags().0,
                self.spec_timer_flags().1,
                self.spec_timer_flags().2,
            ) + seq![
                GenericEvent::RequestSendPacket { packet: p, release_packet_id_if_send_error: None },
                GenericEvent::<PacketIdType>::RequestClose,
            ]
            &&& after.spec_status() == ConnectionStatus::Disconnected
            &&& after.spec_timer_flags() == (false, false, false)
            &&& after.spec_pid_used() == self.spec_pid_used()
        }
    }

    /// Sends a DISCONNECT of either version.
    fn send_disconnect(&mut self, packet: ControlPacket<PacketIdType>, check_size: bool) -> (r: Vec<GenericEvent<PacketIdType>>)
        ensures
            final(self).spec_protocol_version() == old(self).spec_protocol_version(),
            old(self).disconnect_send_outcome(*final(self), packet, check_size, r@),
            final(self).wf() == old(self).wf(),
    {
        let mut events: Vec<GenericEvent<PacketIdType>> = Vec::new();
        if check_size && !self.validate_maximum_packet_size_send(packet.size()) {
            events.push(GenericEvent::NotifyError(MqttError::PacketTooLarge));
            return events;
        }
        if self.status != ConnectionStatus::Connected {
            events.push(GenericEvent::NotifyError(MqttError::PacketNotAllowedToSend));
            return events;
        }
        let ghost gp = GenericPacket::Control(packet);
        self.status = ConnectionStatus::Disconnected;
        self.cancel_timers(&mut events);
        events.push(GenericEvent::RequestSendPacket {
            packet: GenericPacket::Control(packet),
            release_packet_id_if_send_error: None,
        });
        events.push(GenericEvent::RequestClose);
        assert(events@ =~= cancel_events::<PacketIdType>(
            old(self).spec_timer_flags().0,
            old(self).spec_timer_flags().1,
            old(self).spec_timer_flags().2,
        ) + seq![
            GenericEvent::RequestSendPacket { packet: gp, release_packet_id_if_send_error: None },
            GenericEvent::<PacketIdType>::RequestClose,
        ]);
        events
    }

    /// Sends a v3.1.1 DISCONNECT.
    fn process_send_v3_1_1_disconnect(&mut self, packet: ControlPacket<PacketIdType>) -> (r: Vec<GenericEvent<PacketIdType>>)
        ensures
            final(self).spec_protocol_version() == old(self).spec_protocol_version(),
            old(self).disconnect_send_outcome(*final(self), packet, false, r@),
            final(self).wf() == old(self).wf(),
    {
        self.send_disconnect(packet, false)
    }

    /// Sends a v5.0 DISCONNECT.
    fn process_send_v5_0_disconnect(&mut self, packet: ControlPacket<PacketIdType>) -> (r: Vec<GenericEvent<PacketIdType>>)
        ensures
            final(self).spec_protocol_version() == old(self).spec_protocol_version(),
            old(self).disconnect_send_outcome(*final(self), packet, true, r@),
            final(self).wf() == old(self).wf(),
    {
        self.send_disconnect(packet, true)
    }

    /// Sends a v5.0 AUTH: refused when too large or disconnected.
    fn process_send_v5_0_auth(&mut self, packet: ControlPacket<PacketIdType>) -> (r: Vec<GenericEvent<PacketIdType>>)
        ensures
            final(self).wf() == old(self).wf(),
            GenericPacket::Control(packet).spec_size() > old(self).spec_maximum_packet_size_send() ==> r@ == seq![
                GenericEvent::<PacketIdType>::NotifyError(MqttError::PacketTooLarge),
            ] && *final(self) == *old(self),
            GenericPacket::Control(packet).spec_size() <= old(self).spec_maximum_packet_size_send()
                && old(self).spec_status() == ConnectionStatus::Disconnected ==> r@ == seq![
                GenericEvent::<PacketIdType>::NotifyError(MqttError::PacketNotAllowedToSend),
            ] && *final(self) == *old(self),
            GenericPacket::Control(packet).spec_size() <= old(self).spec_maximum_packet_size_send()
                && old(self).spec_status() != ConnectionStatus::Disconnected ==> r@ == seq![
                GenericEvent::RequestSendPacket {
                    packet: GenericPacket::Control(packet),
                    release_packet_id_if_send_error: None,
                },
            ] + old(self).post_process_events() && *final(self) == old(self).after_post_process(),
    {
        let mut events: Vec<GenericEvent<PacketIdType>> = Vec::new();
        if !self.validate_maximum_packet_size_send(packet.size()) {
            events.push(GenericEvent::NotifyError(MqttError::PacketTooLarge));
            return events;
        }
        if self.status == ConnectionStatus::Disconnected {
            events.push(GenericEvent::NotifyError(MqttError::PacketNotAllowedToSend));
            return events;
        }
        events.push(GenericEvent::RequestSendPacket {
            packet: GenericPacket::Control(packet),
            release_packet_id_if_send_error: None,
        });
        self.send_post_process(&mut events);
        events
    }

    /// Sends every stored packet again, dropping (and releasing the
    /// identifier of) those larger than the peer accepts.
    fn send_stored(&mut self) -> (r: Vec<GenericEvent<PacketIdType>>)
        ensures
            forall|k: (ResponsePacket, nat)| #[trigger] final(self).spec_store().contains(k) ==> old(self).spec_store().contains(k),
            final(self).spec_pid_used().subset_of(old(self).spec_pid_used()),
            final(self).spec_status() == old(self).spec_status(),
            final(self).wf() == old(self).wf(),
            *final(self) == (GenericConnection { store: final(self).store, pid_man: final(self).pid_man, ..*old(self) }),
            r@.len() == old(self).spec_store_packets().len(),
            forall|k: int| 0 <= k < r@.len() ==> stored_event(
                old(self).spec_store_packets()[k],
                old(self).spec_maximum_packet_size_send() as nat,
                #[trigger] r@[k],
            ),
            final(self).spec_store() == kept_keys(old(self).spec_store_packets(), old(self).spec_maximum_packet_size_send() as nat),
            final(self).spec_pid_used() == old(self).spec_pid_used().difference(
                dropped_ids(old(self).spec_store_packets(), old(self).spec_maximum_packet_size_send() as nat),
            ),
    {
        let mut events: Vec<GenericEvent<PacketIdType>> = Vec::new();
        let ghost old_store = self.store@;
        let ghost max: nat = self.maximum_packet_size_send as nat;
        let ghost used0 = self.spec_pid_used();
        let packets = self.store.take_all();
        let mut i: usize = 0;
        proof {
            assert(packets@.take(0) =~= Seq::<GenericStorePacket<PacketIdType>>::empty());
            assert(self.store@ =~= kept_keys(packets@.take(0), max));
            assert(used0.difference(dropped_ids(packets@.take(0), max)) =~= used0);
        }
        while i < packets.len()
            invariant
                i <= packets@.len(),
                packets@ == old(self).spec_store_packets(),
                packets@.len() == old_store.len(),
                old_store.no_duplicates(),
                max == old(self).spec_maximum_packet_size_send() as nat,
                used0 == old(self).spec_pid_used(),
                forall|k: int| 0 <= k < packets@.len() ==> crate::connection::store::store_key(#[trigger] packets@[k]) == old_store[k]
                    && packets@[k].wf(),
                forall|k: (ResponsePacket, nat)| #[trigger] self.store@.contains(k) ==> old_store.contains(k),
                self.spec_pid_used().subset_of(old(self).spec_pid_used()),
                *self == (GenericConnection { store: self.store, pid_man: self.pid_man, ..*old(self) }),
                events@.len() == i,
                forall|k: int| 0 <= k < i ==> stored_event(packets@[k], max, #[trigger] events@[k]),
                self.store@ == kept_keys(packets@.take(i as int), max),
                self.spec_pid_used() == used0.difference(dropped_ids(packets@.take(i as int), max)),
            decreases packets@.len() - i,
        {
            let p = &packets[i];
            proof {
                assert(packets@.take(i + 1).drop_last() =~= packets@.take(i as int));
                assert(packets@.take(i + 1).last() == packets@[i as int]);
            }
            if p.size() > self.maximum_packet_size_send as usize {
                let packet_id = p.packet_id();
                self.pid_man.release_id(packet_id);
                events.push(GenericEvent::NotifyPacketIdReleased(packet_id));
                proof {
                    assert(self.spec_pid_used() =~= used0.difference(dropped_ids(packets@.take(i + 1), max)));
                }
            } else {
                events.push(GenericEvent::RequestSendPacket { packet: p.to_packet(), release_packet_id_if_send_error: None });
                let ghost before = self.store@;
                proof {
                    if before.contains(crate::connection::store::store_key(packets@[i as int])) {
                        lemma_kept_keys_from(packets@.take(i as int), max, crate::connection::store::store_key(packets@[i as int]));
                        let j = choose|j: int| 0 <= j < packets@.take(i as int).len()
                            && crate::connection::store::store_key(#[trigger] packets@.take(i as int)[j])
                            == crate::connection::store::store_key(packets@[i as int]);
                        assert(packets@.take(i as int)[j] == packets@[j]);
                        assert(old_store[j] == old_store[i as int]);
                    }
                }
                let _ = self.store.add(p.duplicate());
                proof {
                    assert forall|k: (ResponsePacket, nat)| #[trigger] self.store@.contains(k) implies old_store.contains(k) by {
                        if !before.contains(k) {
                            assert(old_store[i as int] == crate::connection::store::store_key(packets@[i as int]));
                        }
                    }
                    assert(self.spec_pid_used() =~= used0.difference(dropped_ids(packets@.take(i + 1), max)));
                }
            }
            i = i + 1;
        }
        proof {
            assert(packets@.take(i as int) =~= packets@);
        }
        events
    }

    /// What sending a v3.1.1 CONNECT does: refused unless disconnected;
    /// otherwise the connection is set up as a client and becomes connecting,
    /// the session is cleared or kept by the Clean Session flag, and the
    /// packet is sent.
    pub open spec fn connect_send_common(self, after: Self, clean: bool, keep_alive: u16) -> bool {
        &&& after.spec_status() == ConnectionStatus::Connecting
        &&& after.spec_is_client()
        &&& after.spec_pingreq_keep_alive_ms() == keep_alive as u64 * 1000
        &&& after.spec_pingreq_server_keep_alive_ms() is None
        &&& after.spec_publish_send_max() is None
        &&& after.spec_publish_send_count() == 0
        &&& after.spec_topic_alias_send() is None
        &&& after.spec_publish_recv() == Set::<u32>::empty()
        &&& after.spec_pid_suback() == Set::<u32>::empty()
        &&& after.spec_pid_unsuback() == Set::<u32>::empty()
        &&& (clean ==> after.spec_pid_used() == Set::<u32>::empty() && after.spec_store() == Seq::<
            (ResponsePacket, nat),
        >::empty() && after.spec_pid_puback() == Set::<u32>::empty() && after.spec_pid_pubrec() == Set::<
            u32,
        >::empty() && after.spec_pid_pubcomp() == Set::<u32>::empty())
        &&& (!clean ==> after.spec_pid_used() == self.spec_pid_used() && after.spec_store() == self.spec_store())
        &&& after.spec_protocol_version() == self.spec_protocol_version()
    }

    /// The events of a successful CONNECT: the packet to send, then the
    /// PINGREQ timer when an interval is in force.
    pub open spec fn connect_events(self, packet: GenericPacket<PacketIdType>, keep_alive: u16) -> Seq<GenericEvent<PacketIdType>> {
        let ms = pingreq_interval(self.spec_pingreq_user_send_interval_ms(), None, (keep_alive as u64 * 1000) as u64);
        seq![GenericEvent::RequestSendPacket { packet: packet, release_packet_id_if_send_error: None }] + (if ms > 0 {
            seq![GenericEvent::<PacketIdType>::RequestTimerReset { kind: TimerKind::PingreqSend, duration_ms: ms }]
        } else {
            Seq::<GenericEvent<PacketIdType>>::empty()
        })
    }

    /// What sending a v3.1.1 CONNECT does (see `process_send_v3_1_1_connect`).
    pub open spec fn v3_connect_send_outcome(self, after: Self, packet: v3_1_1::connect::Connect, r: Seq<GenericEvent<PacketIdType>>) -> bool {
        &&& (after.wf() == self.wf())
        &&& (self.spec_status() != ConnectionStatus::Disconnected ==> r == seq![
                GenericEvent::<PacketIdType>::NotifyError(MqttError::PacketNotAllowedToSend),
            ] && after == self)
        &&& (self.spec_status() == ConnectionStatus::Disconnected ==> {
                &&& self.connect_send_common(
                    after,
                    crate::packet::connect_common::flag_clean(packet.spec_flags()),
                    packet.spec_keep_alive() as u16,
                )
                &&& after.spec_need_store() == !crate::packet::connect_common::flag_clean(packet.spec_flags())
                &&& r == self.connect_events(GenericPacket::V3_1_1Connect(packet), packet.spec_keep_alive() as u16)
            })
    }

    /// Sends a v3.1.1 CONNECT.
    fn process_send_v3_1_1_connect(&mut self, packet: v3_1_1::connect::Connect) -> (r: Vec<GenericEvent<PacketIdType>>)
        ensures
            old(self).v3_connect_send_outcome(*final(self), packet, r@),
    {
        if self.status != ConnectionStatus::Disconnected {
            let mut events: Vec<GenericEvent<PacketIdType>> = Vec::new();
            events.push(GenericEvent::NotifyError(MqttError::PacketNotAllowedToSend));
            return events;
        }
        let mut events: Vec<GenericEvent<PacketIdType>> = Vec::new();
        self.initialize(true);
        self.status = ConnectionStatus::Connecting;
        let ka = packet.keep_alive();
        self.pingreq_keep_alive_ms = ka as u64 * 1000;
        if packet.clean_start() {
            self.clear_store_related();
        } else {
            self.need_store = true;
        }
        self.topic_alias_send = None;
        let ghost gp = GenericPacket::<PacketIdType>::V3_1_1Connect(packet);
        events.push(GenericEvent::RequestSendPacket {
            packet: GenericPacket::V3_1_1Connect(packet),
            release_packet_id_if_send_error: None,
        });
        assert(self.post_process_events() =~= old(self).connect_events(gp, ka).drop_first());
        self.send_post_process(&mut events);
        assert(events@ =~= old(self).connect_events(gp, ka));
        events
    }

    /// What sending a v5.0 CONNECT does (see `process_send_v5_0_connect`).
    pub open spec fn v5_connect_send_outcome(self, after: Self, packet: v5_0::connect::Connect, r: Seq<GenericEvent<PacketIdType>>) -> bool {
        &&& (after.wf() == self.wf())
        &&& (GenericPacket::<PacketIdType>::V5_0Connect(packet).spec_size() > self.spec_maximum_packet_size_send()
                ==> r == seq![GenericEvent::<PacketIdType>::NotifyError(MqttError::PacketTooLarge)] && after
                == self)
        &&& (GenericPacket::<PacketIdType>::V5_0Connect(packet).spec_size() <= self.spec_maximum_packet_size_send()
                && self.spec_status() != ConnectionStatus::Disconnected ==> r == seq![
                GenericEvent::<PacketIdType>::NotifyError(MqttError::PacketNotAllowedToSend),
            ] && after == self)
        &&& (GenericPacket::<PacketIdType>::V5_0Connect(packet).spec_size() <= self.spec_maximum_packet_size_send()
                && self.spec_status() == ConnectionStatus::Disconnected ==> {
                &&& self.connect_send_common(
                    after,
                    crate::packet::connect_common::flag_clean(packet.spec_flags()),
                    packet.spec_keep_alive() as u16,
                )
                &&& after.spec_need_store() == (last_u32(packet.spec_props(), 1, true) is Some)
                &&& after.spec_publish_recv_max() == last_u16(packet.spec_props(), 0, false)
                &&& after.spec_maximum_packet_size_recv() == (match last_u32(packet.spec_props(), 0, false) {
                    Some(v) => v,
                    None => self.spec_maximum_packet_size_recv(),
                })
                &&& after.spec_has_topic_alias_recv() == (last_u16(packet.spec_props(), 1, true) is Some)
                &&& r == self.connect_events(GenericPacket::V5_0Connect(packet), packet.spec_keep_alive() as u16)
            })
    }

    /// Sends a v5.0 CONNECT.
    fn process_send_v5_0_connect(&mut self, packet: v5_0::connect::Connect) -> (r: Vec<GenericEvent<PacketIdType>>)
        ensures
            old(self).v5_connect_send_outcome(*final(self), packet, r@),
    {
        let mut events: Vec<GenericEvent<PacketIdType>> = Vec::new();
        let size = packet.size();
        if !self.validate_maximum_packet_size_send(size) {
            events.push(GenericEvent::NotifyError(MqttError::PacketTooLarge));
            return events;
        }
        if self.status != ConnectionStatus::Disconnected {
            events.push(GenericEvent::NotifyError(MqttError::PacketNotAllowedToSend));
            return events;
        }
        self.initialize(true);
        self.status = ConnectionStatus::Connecting;
        let ka = packet.keep_alive();
        self.pingreq_keep_alive_ms = ka as u64 * 1000;
        if packet.clean_start() {
            self.clear_store_related();
        }
        self.apply_own_connect_limits(packet.props());
        let ghost gp = GenericPacket::<PacketIdType>::V5_0Connect(packet);
        events.push(GenericEvent::RequestSendPacket {
            packet: GenericPacket::V5_0Connect(packet),
            release_packet_id_if_send_error: None,
        });
        assert(self.post_process_events() =~= old(self).connect_events(gp, ka).drop_first());
        self.send_post_process(&mut events);
        assert(events@ =~= old(self).connect_events(gp, ka));
        events
    }

    /// Applies one property of a CONNACK this side sends (see
    /// `apply_own_connack_limits`).
    #[verifier::rlimit(30)]
    fn apply_own_connack_prop(&mut self, prop: &Property, events: &mut Vec<GenericEvent<PacketIdType>>)
        ensures
            final(self).publish_recv_max == (match prop_u16(*prop, 0) {
                Some(v) => Some(v),
                None => old(self).publish_recv_max,
            }),
            final(self).maximum_packet_size_recv == (match prop_u32(*prop, 0) {
                Some(v) => v,
                None => old(self).maximum_packet_size_recv,
            }),
            (prop_u16(*prop, 1) matches Some(v) && v != 0) ==> (final(self).topic_alias_recv matches Some(t) && t.spec_max()
                == prop_u16(*prop, 1).unwrap() && t@ == Map::<u16, Seq<char>>::empty()),
            !(prop_u16(*prop, 1) matches Some(v) && v != 0) ==> final(self).topic_alias_recv == old(self).topic_alias_recv,
            ({
                let st = keep_alive_step::<PacketIdType>(
                    *prop,
                    (old(events)@, old(self).pingreq_recv_set, old(self).pingreq_recv_timeout_ms),
                );
                &&& final(events)@ == st.0
                &&& final(self).pingreq_recv_set == st.1
                &&& final(self).pingreq_recv_timeout_ms == st.2
            }),
            *final(self) == (GenericConnection {
                publish_recv_max: final(self).publish_recv_max,
                maximum_packet_size_recv: final(self).maximum_packet_size_recv,
                topic_alias_recv: final(self).topic_alias_recv,
                pingreq_recv_set: final(self).pingreq_recv_set,
                pingreq_recv_timeout_ms: final(self).pingreq_recv_timeout_ms,
                ..*old(self)
            }),
    {
        match prop {
            Property::TopicAliasMaximum(val) => {
                if val.val() != 0 {
                    self.topic_alias_recv = Some(TopicAliasRecv::new(val.val()));
                }
            },
            Property::ReceiveMaximum(val) => {
                self.publish_recv_max = Some(val.val());
            },
            Property::MaximumPacketSize(val) => {
                self.maximum_packet_size_recv = val.val();
            },
            Property::ServerKeepAlive(val) => {
                let v = val.val();
                if v == 0 {
                    if self.pingreq_recv_set {
                        self.pingreq_recv_set = false;
                        events.push(GenericEvent::RequestTimerCancel(TimerKind::PingreqRecv));
                    }
                    self.pingreq_recv_timeout_ms = 0;
                } else {
                    self.pingreq_recv_timeout_ms = v as u64 * 1500;
                    self.pingreq_recv_set = true;
                    events.push(GenericEvent::RequestTimerReset {
                        kind: TimerKind::PingreqRecv,
                        duration_ms: self.pingreq_recv_timeout_ms,
                    });
                }
            },
            _ => {},
        }
    }

    /// Applies the limits this side announces in the properties of the
    /// CONNACK it sends: receive maximum, maximum packet size, topic alias
    /// maximum (when not 0), and the server keep alive, which sets the time
    /// the client's PINGREQ is waited for.
    #[verifier::rlimit(40)]
    fn apply_own_connack_limits(&mut self, props: &Properties, events: &mut Vec<GenericEvent<PacketIdType>>)
        ensures
            final(self).publish_recv_max == (match last_u16(props@, 0, false) {
                Some(v) => Some(v),
                None => old(self).publish_recv_max,
            }),
            final(self).maximum_packet_size_recv == (match last_u32(props@, 0, false) {
                Some(v) => v,
                None => old(self).maximum_packet_size_recv,
            }),
            last_u16(props@, 1, true) matches Some(v) ==> final(self).topic_alias_recv matches Some(t) && t.spec_max() == v
                && t@ == Map::<u16, Seq<char>>::empty(),
            last_u16(props@, 1, true) is None ==> final(self).topic_alias_recv == old(self).topic_alias_recv,
            final(events)@ == old(events)@ + keep_alive_steps::<PacketIdType>(
                props@,
                old(self).pingreq_recv_set,
                old(self).pingreq_recv_timeout_ms,
            ).0,
            final(self).pingreq_recv_set == keep_alive_steps::<PacketIdType>(
                props@,
                old(self).pingreq_recv_set,
                old(self).pingreq_recv_timeout_ms,
            ).1,
            final(self).pingreq_recv_timeout_ms == keep_alive_steps::<PacketIdType>(
                props@,
                old(self).pingreq_recv_set,
                old(self).pingreq_recv_timeout_ms,
            ).2,
            *final(self) == (GenericConnection {
                publish_recv_max: final(self).publish_recv_max,
                maximum_packet_size_recv: final(self).maximum_packet_size_recv,
                topic_alias_recv: final(self).topic_alias_recv,
                pingreq_recv_set: final(self).pingreq_recv_set,
                pingreq_recv_timeout_ms: final(self).pingreq_recv_timeout_ms,
                ..*old(self)
            }),
    {
        let ghost e0 = events@;
        let mut i: usize = 0;
        while i < props.len()
            invariant
                i <= props@.len(),
                self.publish_recv_max == (match last_u16(props@.take(i as int), 0, false) {
                    Some(v) => Some(v),
                    None => old(self).publish_recv_max,
                }),
                self.maximum_packet_size_recv == (match last_u32(props@.take(i as int), 0, false) {
                    Some(v) => v,
                    None => old(self).maximum_packet_size_recv,
                }),
                last_u16(props@.take(i as int), 1, true) matches Some(v) ==> self.topic_alias_recv matches Some(t)
                    && t.spec_max() == v && t@ == Map::<u16, Seq<char>>::empty(),
                last_u16(props@.take(i as int), 1, true) is None ==> self.topic_alias_recv == old(self).topic_alias_recv,
                events@ == e0 + keep_alive_steps::<PacketIdType>(
                    props@.take(i as int),
                    old(self).pingreq_recv_set,
                    old(self).pingreq_recv_timeout_ms,
                ).0,
                self.pingreq_recv_set == keep_alive_steps::<PacketIdType>(
                    props@.take(i as int),
                    old(self).pingreq_recv_set,
                    old(self).pingreq_recv_timeout_ms,
                ).1,
                self.pingreq_recv_timeout_ms == keep_alive_steps::<PacketIdType>(
                    props@.take(i as int),
                    old(self).pingreq_recv_set,
                    old(self).pingreq_recv_timeout_ms,
                ).2,
                *self == (GenericConnection {
                    publish_recv_max: self.publish_recv_max,
                    maximum_packet_size_recv: self.maximum_packet_size_recv,
                    topic_alias_recv: self.topic_alias_recv,
                    pingreq_recv_set: self.pingreq_recv_set,
                    pingreq_recv_timeout_ms: self.pingreq_recv_timeout_ms,
                    ..*old(self)
                }),
            decreases props@.len() - i,
        {
            proof { lemma_last_step(props@, i as int); }
            let ghost prev = keep_alive_steps::<PacketIdType>(
                props@.take(i as int),
                old(self).pingreq_recv_set,
                old(self).pingreq_recv_timeout_ms,
            );
            let ghost ev_before = events@;
            self.apply_own_connack_prop(&props[i], events);
            proof {
                let st1 = keep_alive_step::<PacketIdType>(props@[i as int], (ev_before, prev.1, prev.2));
                let st2 = keep_alive_step::<PacketIdType>(props@[i as int], prev);
                assert(st1.0 =~= e0 + st2.0);
            }
            i = i + 1;
        }
        proof { assert(props@.take(i as int) =~= props@); }
    }

    /// What sending a CONNACK with reason code `rc` does once accepted:
    /// the packet is sent; a code other than 0 closes the connection,
    /// cancelling the timers.
    pub open spec fn connack_refused_outcome(
        self,
        after: Self,
        packet: GenericPacket<PacketIdType>,
        pre: Seq<GenericEvent<PacketIdType>>,
        r: Seq<GenericEvent<PacketIdType>>,
    ) -> bool {
        let flags = self.spec_timer_flags();
        &&& r == pre + seq![GenericEvent::RequestSendPacket { packet: packet, release_packet_id_if_send_error: None }]
            + cancel_events::<PacketIdType>(flags.0, flags.1, flags.2) + seq![GenericEvent::<PacketIdType>::RequestClose]
        &&& after.spec_status() == ConnectionStatus::Disconnected
        &&& after.spec_timer_flags() == (false, false, false)
    }

    /// What sending a v3.1.1 CONNACK does (see `process_send_v3_1_1_connack`).
    pub open spec fn v3_connack_send_outcome(self, after: Self, packet: ControlPacket<PacketIdType>, r: Seq<GenericEvent<PacketIdType>>) -> bool {
        &&& (after.spec_protocol_version() == self.spec_protocol_version())
        &&& (after.wf() == self.wf())
        &&& (self.spec_status() != ConnectionStatus::Connecting ==> r == seq![
                GenericEvent::<PacketIdType>::NotifyError(MqttError::PacketNotAllowedToSend),
            ] && after == self)
        &&& (self.spec_status() == ConnectionStatus::Connecting && packet.spec_reason_code() != Some(0u8)
                ==> self.connack_refused_outcome(after, GenericPacket::Control(packet), Seq::empty(), r))
        &&& (self.spec_status() == ConnectionStatus::Connecting && packet.spec_reason_code() == Some(0u8) ==> {
                &&& after.spec_status() == ConnectionStatus::Connected
                &&& r.len() >= 1
                &&& r[0] == GenericEvent::RequestSendPacket {
                    packet: GenericPacket::Control(packet),
                    release_packet_id_if_send_error: None,
                }
            })
    }

    /// Sends a v3.1.1 CONNACK: only while connecting. A return code other
    /// than 0 (Accepted) closes the connection; otherwise the connection is
    /// established and the stored packets are sent again.
    fn process_send_v3_1_1_connack(&mut self, packet: ControlPacket<PacketIdType>) -> (r: Vec<GenericEvent<PacketIdType>>)
        requires
            packet.spec_packet_type() == 2,
        ensures
            old(self).v3_connack_send_outcome(*final(self), packet, r@),
    {
        if self.status != ConnectionStatus::Connecting {
            let mut events: Vec<GenericEvent<PacketIdType>> = Vec::new();
            events.push(GenericEvent::NotifyError(MqttError::PacketNotAllowedToSend));
            return events;
        }
        let mut events: Vec<GenericEvent<PacketIdType>> = Vec::new();
        let rc = packet.reason_code();
        let ghost gp = GenericPacket::<PacketIdType>::Control(packet);
        events.push(GenericEvent::RequestSendPacket {
            packet: GenericPacket::Control(packet),
            release_packet_id_if_send_error: None,
        });
        if rc != Some(0u8) {
            let ghost flags = self.spec_timer_flags();
            let ghost sent = events@;
            self.status = ConnectionStatus::Disconnected;
            self.cancel_timers(&mut events);
            events.push(GenericEvent::RequestClose);
            assert(events@ =~= sent + cancel_events::<PacketIdType>(flags.0, flags.1, flags.2) + seq![
                GenericEvent::<PacketIdType>::RequestClose,
            ]);
            return events;
        }
        self.status = ConnectionStatus::Connected;
        let mut stored = self.send_stored();
        events.append(&mut stored);
        self.send_post_process(&mut events);
        events
    }

    /// What a v5.0 CONNACK with reason code 0 sent with properties `ps`
    /// does besides the limits it announces: the topic alias maximum it
    /// announces (when not 0) makes an empty table of received aliases; the
    /// stored packets are sent again after the CONNACK (the event at
    /// `start`), one event each as `stored_event` says, then the PINGREQ
    /// timer events; the store and the identifiers in use are those
    /// resending leaves.
    pub open spec fn connack_sent_rest(self, after: Self, ps: Seq<Property>, r: Seq<GenericEvent<PacketIdType>>, start: nat) -> bool {
        let n = self.spec_store_packets().len();
        let max = self.spec_maximum_packet_size_send() as nat;
        &&& (last_u16(ps, 1, true) matches Some(v) ==> (after.spec_topic_alias_recv() matches Some(t) && t.spec_max() == v
            && t@ == Map::<u16, Seq<char>>::empty()))
        &&& (last_u16(ps, 1, true) is None ==> after.spec_topic_alias_recv() == self.spec_topic_alias_recv())
        &&& r.len() == start + 1 + n + self.post_process_events().len()
        &&& forall|k: int| 0 <= k < n ==> stored_event(self.spec_store_packets()[k], max, #[trigger] r[start + 1 + k])
        &&& r.skip((start + 1 + n) as int) == self.post_process_events()
        &&& after.spec_store() == kept_keys(self.spec_store_packets(), max)
        &&& after.spec_pid_used() == self.spec_pid_used().difference(dropped_ids(self.spec_store_packets(), max))
    }

    /// What sending a v5.0 CONNACK does (see `process_send_v5_0_connack`).
    pub open spec fn v5_connack_send_outcome(self, after: Self, packet: ControlPacket<PacketIdType>, r: Seq<GenericEvent<PacketIdType>>) -> bool {
        &&& (after.spec_protocol_version() == self.spec_protocol_version())
        &&& (after.wf() == self.wf())
        &&& (GenericPacket::Control(packet).spec_size() > self.spec_maximum_packet_size_send() ==> r == seq![
                GenericEvent::<PacketIdType>::NotifyError(MqttError::PacketTooLarge),
            ] && after == self)
        &&& (GenericPacket::Control(packet).spec_size() <= self.spec_maximum_packet_size_send()
                && self.spec_status() != ConnectionStatus::Connecting ==> r == seq![
                GenericEvent::<PacketIdType>::NotifyError(MqttError::PacketNotAllowedToSend),
            ] && after == self)
        &&& (GenericPacket::Control(packet).spec_size() <= self.spec_maximum_packet_size_send()
                && self.spec_status() == ConnectionStatus::Connecting && packet.spec_reason_code() != Some(0u8)
                ==> self.connack_refused_outcome(after, GenericPacket::Control(packet), Seq::empty(), r))
        &&& (GenericPacket::Control(packet).spec_size() <= self.spec_maximum_packet_size_send()
                && self.spec_status() == ConnectionStatus::Connecting && packet.spec_reason_code() == Some(0u8) ==> {
                let ps = match packet.spec_props() {
                    Some(ps) => ps,
                    None => Seq::<Property>::empty(),
                };
                let steps = keep_alive_steps::<PacketIdType>(
                    ps,
                    self.spec_timer_flags().1,
                    self.spec_pingreq_recv_timeout_ms(),
                );
                &&& after.spec_status() == ConnectionStatus::Connected
                &&& after.spec_pingreq_recv_timeout_ms() == steps.2
                &&& after.spec_publish_recv_max() == (match last_u16(ps, 0, false) {
                    Some(v) => Some(v),
                    None => self.spec_publish_recv_max(),
                })
                &&& after.spec_maximum_packet_size_recv() == (match last_u32(ps, 0, false) {
                    Some(v) => v,
                    None => self.spec_maximum_packet_size_recv(),
                })
                &&& r.len() > steps.0.len()
                &&& r.take(steps.0.len() as int) == steps.0
                &&& r[steps.0.len() as int] == GenericEvent::RequestSendPacket {
                    packet: GenericPacket::Control(packet),
                    release_packet_id_if_send_error: None,
                }
                &&& self.connack_sent_rest(after, ps, r, steps.0.len())
            })
    }

    /// Sends a v5.0 CONNACK: refused when larger than the peer accepts or
    /// when not connecting. A reason code 0 (Success) applies the limits its
    /// properties announce, establishes the connection and sends the stored
    /// packets again; any other code closes the connection.
    #[verifier::rlimit(100)]
    #[verifier::spinoff_prover]
    fn process_send_v5_0_connack(&mut self, packet: ControlPacket<PacketIdType>) -> (r: Vec<GenericEvent<PacketIdType>>)
        requires
            packet.spec_packet_type() == 2,
        ensures
            final(self).spec_protocol_version() == old(self).spec_protocol_version(),
            final(self).wf() == old(self).wf(),
            GenericPacket::Control(packet).spec_size() > old(self).spec_maximum_packet_size_send() ==> r@ == seq![
                GenericEvent::<PacketIdType>::NotifyError(MqttError::PacketTooLarge),
            ] && *final(self) == *old(self),
            GenericPacket::Control(packet).spec_size() <= old(self).spec_maximum_packet_size_send()
                && old(self).spec_status() != ConnectionStatus::Connecting ==> r@ == seq![
                GenericEvent::<PacketIdType>::NotifyError(MqttError::PacketNotAllowedToSend),
            ] && *final(self) == *old(self),
            GenericPacket::Control(packet).spec_size() <= old(self).spec_maximum_packet_size_send()
                && old(self).spec_status() == ConnectionStatus::Connecting && packet.spec_reason_code() != Some(0u8)
                ==> old(self).connack_refused_outcome(*final(self), GenericPacket::Control(packet), Seq::empty(), r@),
            GenericPacket::Control(packet).spec_size() <= old(self).spec_maximum_packet_size_send()
                && old(self).spec_status() == ConnectionStatus::Connecting && packet.spec_reason_code() == Some(0u8) ==> {
                let ps = match packet.spec_props() {
                    Some(ps) => ps,
                    None => Seq::<Property>::empty(),
                };
                let steps = keep_alive_steps::<PacketIdType>(
                    ps,
                    old(self).spec_timer_flags().1,
                    old(self).spec_pingreq_recv_timeout_ms(),
                );
                &&& final(self).spec_status() == ConnectionStatus::Connected
                &&& final(self).spec_pingreq_recv_timeout_ms() == steps.2
                &&& final(self).spec_publish_recv_max() == (match last_u16(ps, 0, false) {
                    Some(v) => Some(v),
                    None => old(self).spec_publish_recv_max(),
                })
                &&& final(self).spec_maximum_packet_size_recv() == (match last_u32(ps, 0, false) {
                    Some(v) => v,
                    None => old(self).spec_maximum_packet_size_recv(),
                })
                &&& r@.len() > steps.0.len()
                &&& r@.take(steps.0.len() as int) == steps.0
                &&& r@[steps.0.len() as int] == GenericEvent::RequestSendPacket {
                    packet: GenericPacket::Control(packet),
                    release_packet_id_if_send_error: None,
                }
                &&& old(self).connack_sent_rest(*final(self), ps, r@, steps.0.len())
            },
    {
        if !self.validate_maximum_packet_size_send(packet.size()) {
            let mut events: Vec<GenericEvent<PacketIdType>> = Vec::new();
            events.push(GenericEvent::NotifyError(MqttError::PacketTooLarge));
            return events;
        }
        if self.status != ConnectionStatus::Connecting {
            let mut events: Vec<GenericEvent<PacketIdType>> = Vec::new();
            events.push(GenericEvent::NotifyError(MqttError::PacketNotAllowedToSend));
            return events;
        }
        let mut events: Vec<GenericEvent<PacketIdType>> = Vec::new();
        let rc = packet.reason_code();
        if rc == Some(0u8) {
            match packet.props() {
                Some(ps) => self.apply_own_connack_limits(ps, &mut events),
                None => {
                    let empty: Properties = Vec::new();
                    self.apply_own_connack_limits(&empty, &mut events);
                },
            }
        }
        let ghost pre = events@;
        events.push(GenericEvent::RequestSendPacket {
            packet: GenericPacket::Control(packet),
            release_packet_id_if_send_error: None,
        });
        if rc != Some(0u8) {
            let ghost flags = self.spec_timer_flags();
            let ghost sent = events@;
            self.status = ConnectionStatus::Disconnected;
            self.cancel_timers(&mut events);
            events.push(GenericEvent::RequestClose);
            assert(events@ =~= sent + cancel_events::<PacketIdType>(flags.0, flags.1, flags.2) + seq![
                GenericEvent::<PacketIdType>::RequestClose,
            ]);
            return events;
        }
        self.status = ConnectionStatus::Connected;
        let ghost s2 = *self;
        let ghost e2 = events@;
        let mut stored = self.send_stored();
        let ghost sv = stored@;
        events.append(&mut stored);
        let ghost e3 = events@;
        let ghost s3 = *self;
        self.send_post_process(&mut events);
        proof {
            assert(events@.take(pre.len() as int) =~= pre);
            assert(s2.spec_store_packets() == old(self).spec_store_packets());
            assert(s2.spec_maximum_packet_size_send() == old(self).spec_maximum_packet_size_send());
            assert(s2.spec_pid_used() == old(self).spec_pid_used());
            assert(s3.post_process_events() == old(self).post_process_events());
            assert(events@ =~= e2 + sv + old(self).post_process_events());
            let n = old(self).spec_store_packets().len();
            assert(events@.skip((pre.len() + 1 + n) as int) =~= old(self).post_process_events());
            assert forall|k: int| 0 <= k < n implies stored_event(
                old(self).spec_store_packets()[k],
                old(self).spec_maximum_packet_size_send() as nat,
                #[trigger] events@[pre.len() + 1 + k],
            ) by {
                assert(events@[pre.len() + 1 + k] == sv[k]);
            }
        }
        events
    }


    /// The event that releasing `id` gives: one when it is in use.
    pub open spec fn release_events(self, id: PacketIdType) -> Seq<GenericEvent<PacketIdType>> {
        if self.spec_pid_used().contains(id.spec_value() as u32) {
            seq![GenericEvent::<PacketIdType>::NotifyPacketIdReleased(id)]
        } else {
            Seq::<GenericEvent<PacketIdType>>::empty()
        }
    }

    /// Releases `id` when it is in use, adding the event that says so.
    fn release_if_used(&mut self, id: PacketIdType, events: &mut Vec<GenericEvent<PacketIdType>>)
        ensures
            final(events)@ == old(events)@ + old(self).release_events(id),
            final(self).spec_pid_used() == old(self).spec_pid_used().remove(id.spec_value() as u32),
            *final(self) == (GenericConnection { pid_man: final(self).pid_man, ..*old(self) }),
    {
        if self.pid_man.is_used_id(id) {
            self.pid_man.release_id(id);
            events.push(GenericEvent::NotifyPacketIdReleased(id));
        } else {
            proof {
                assert(old(self).spec_pid_used().remove(id.spec_value() as u32) =~= old(self).spec_pid_used());
            }
        }
        proof {
            assert(events@ =~= old(events)@ + old(self).release_events(id));
        }
    }

    /// Whether a PUBLISH with QoS 1 or 2 is kept for retransmission: the
    /// session is stored and the connection is not closed, or publishing
    /// while offline is enabled.
    pub open spec fn stores_publish(self) -> bool {
        self.spec_need_store() && (self.spec_status() != ConnectionStatus::Disconnected || self.spec_offline_publish())
    }

    /// What the start of sending a PUBLISH with QoS 1 or 2 and identifier
    /// `id` does, before the packet itself is handled: when not connected
    /// and neither storing nor publishing offline, refuse it and release the
    /// identifier; an identifier not in use is refused.
    pub open spec fn publish_refused(self, id: PacketIdType) -> Option<Seq<GenericEvent<PacketIdType>>> {
        if self.spec_status() != ConnectionStatus::Connected && !self.spec_need_store() && !self.spec_offline_publish() {
            Some(seq![GenericEvent::<PacketIdType>::NotifyError(MqttError::PacketNotAllowedToSend)] + self.release_events(id))
        } else if !self.spec_pid_used().contains(id.spec_value() as u32) {
            Some(seq![GenericEvent::<PacketIdType>::NotifyError(MqttError::PacketIdentifierInvalid)])
        } else {
            None
        }
    }

    /// `sp` is what is stored for sent v3.1.1 `packet`: the same PUBLISH
    /// (QoS, RETAIN, topic, packet identifier, payload) with DUP set.
    pub open spec fn v3_stored_copy(sp: GenericStorePacket<PacketIdType>, packet: v3_1_1::publish::GenericPublish<PacketIdType>) -> bool {
        sp matches GenericStorePacket::V3_1_1Publish(q) && {
            &&& crate::packet::publish_common::header_dup(q.spec_fixed_header())
            &&& header_qos(q.spec_fixed_header()) == header_qos(packet.spec_fixed_header())
            &&& crate::packet::publish_common::header_retain(q.spec_fixed_header()) == crate::packet::publish_common::header_retain(packet.spec_fixed_header())
            &&& q.spec_topic_name() == packet.spec_topic_name()
            &&& q.spec_packet_id() == packet.spec_packet_id()
            &&& q.spec_payload() == packet.spec_payload()
        }
    }

    /// What sending v3.1.1 `packet` does to the stored packets: a QoS 1 or 2
    /// PUBLISH accepted while the session is kept, whose key is not stored
    /// yet, is appended as `v3_stored_copy` says; otherwise they stay.
    pub open spec fn v3_store_effect(self, after: Self, packet: v3_1_1::publish::GenericPublish<PacketIdType>) -> bool {
        let q = header_qos(packet.spec_fixed_header());
        let id = packet.spec_packet_id().unwrap();
        let key = (
            if q == 1 { ResponsePacket::V3_1_1Puback } else { ResponsePacket::V3_1_1Pubrec },
            id.spec_value(),
        );
        if q != 0 && self.publish_refused(id) is None && self.stores_publish() && !self.spec_store().contains(key) {
            &&& after.spec_store_packets().len() == self.spec_store_packets().len() + 1
            &&& after.spec_store_packets().drop_last() == self.spec_store_packets()
            &&& Self::v3_stored_copy(after.spec_store_packets().last(), packet)
        } else {
            after.spec_store_packets() == self.spec_store_packets()
        }
    }

    /// What sending a v3.1.1 PUBLISH does (see `process_send_v3_1_1_publish`).
    pub open spec fn v3_publish_send_outcome(self, after: Self, packet: v3_1_1::publish::GenericPublish<PacketIdType>, r: Seq<GenericEvent<PacketIdType>>) -> bool {
        &&& (after.wf() == self.wf())
        &&& self.v3_store_effect(after, packet)
        &&& (after.spec_status() == self.spec_status())
        &&& (header_qos(packet.spec_fixed_header()) == 0 && self.spec_status() != ConnectionStatus::Connected ==> r
                == seq![GenericEvent::<PacketIdType>::NotifyError(MqttError::PacketNotAllowedToSend)] && after
                == self)
        &&& (header_qos(packet.spec_fixed_header()) == 0 && self.spec_status() == ConnectionStatus::Connected ==> r
                == seq![
                GenericEvent::RequestSendPacket {
                    packet: GenericPacket::V3_1_1Publish(packet),
                    release_packet_id_if_send_error: None,
                },
            ] + self.post_process_events() && after == self.after_post_process())
        &&& (header_qos(packet.spec_fixed_header()) != 0 ==> {
                let id = packet.spec_packet_id().unwrap();
                let v = id.spec_value() as u32;
                let key = (
                    if header_qos(packet.spec_fixed_header()) == 1 {
                        ResponsePacket::V3_1_1Puback
                    } else {
                        ResponsePacket::V3_1_1Pubrec
                    },
                    id.spec_value(),
                );
                match self.publish_refused(id) {
                    Some(ev) => {
                        &&& r == ev
                        &&& after.spec_pid_used() == (if self.spec_status() != ConnectionStatus::Connected {
                            self.spec_pid_used().remove(v)
                        } else {
                            self.spec_pid_used()
                        })
                        &&& after.spec_store() == self.spec_store()
                    },
                    None => {
                        &&& after.spec_pid_used() == self.spec_pid_used()
                        &&& after.spec_store() == (if self.stores_publish() && !self.spec_store().contains(
                            key,
                        ) {
                            self.spec_store().push(key)
                        } else {
                            self.spec_store()
                        })
                        &&& header_qos(packet.spec_fixed_header()) == 1 ==> after.spec_pid_puback()
                            == self.spec_pid_puback().insert(v) && after.spec_pid_pubrec()
                            == self.spec_pid_pubrec()
                        &&& header_qos(packet.spec_fixed_header()) != 1 ==> after.spec_pid_pubrec()
                            == self.spec_pid_pubrec().insert(v) && after.spec_pid_puback()
                            == self.spec_pid_puback()
                        &&& r == (if self.spec_status() == ConnectionStatus::Connected {
                            seq![
                                GenericEvent::RequestSendPacket {
                                    packet: GenericPacket::V3_1_1Publish(packet),
                                    release_packet_id_if_send_error: if self.stores_publish() {
                                        None
                                    } else {
                                        Some(id)
                                    },
                                },
                            ] + self.post_process_events()
                        } else {
                            Seq::<GenericEvent<PacketIdType>>::empty()
                        })
                    },
                }
            })
    }

    /// Sends a v3.1.1 PUBLISH. QoS 0 needs a connected state. For QoS 1 and
    /// 2 the identifier must be in use; the packet is stored (with DUP set)
    /// when `stores_publish`, else its identifier is released should the send
    /// fail; the identifier then waits for its PUBACK or PUBREC. The packet is
    /// sent only when connected.
    #[verifier::rlimit(50)]
    fn process_send_v3_1_1_publish(&mut self, packet: v3_1_1::publish::GenericPublish<PacketIdType>) -> (r: Vec<GenericEvent<PacketIdType>>)
        ensures
            final(self).wf() == old(self).wf(),
            final(self).spec_status() == old(self).spec_status(),
            header_qos(packet.spec_fixed_header()) == 0 && old(self).spec_status() != ConnectionStatus::Connected ==> r@
                == seq![GenericEvent::<PacketIdType>::NotifyError(MqttError::PacketNotAllowedToSend)] && *final(self)
                == *old(self),
            header_qos(packet.spec_fixed_header()) == 0 && old(self).spec_status() == ConnectionStatus::Connected ==> r@
                == seq![
                GenericEvent::RequestSendPacket {
                    packet: GenericPacket::V3_1_1Publish(packet),
                    release_packet_id_if_send_error: None,
                },
            ] + old(self).post_process_events() && *final(self) == old(self).after_post_process(),
            header_qos(packet.spec_fixed_header()) != 0 ==> {
                let id = packet.spec_packet_id().unwrap();
                let v = id.spec_value() as u32;
                let key = (
                    if header_qos(packet.spec_fixed_header()) == 1 {
                        ResponsePacket::V3_1_1Puback
                    } else {
                        ResponsePacket::V3_1_1Pubrec
                    },
                    id.spec_value(),
                );
                match old(self).publish_refused(id) {
                    Some(ev) => {
                        &&& r@ == ev
                        &&& final(self).spec_pid_used() == (if old(self).spec_status() != ConnectionStatus::Connected {
                            old(self).spec_pid_used().remove(v)
                        } else {
                            old(self).spec_pid_used()
                        })
                        &&& final(self).spec_store() == old(self).spec_store()
                    },
                    None => {
                        &&& final(self).spec_pid_used() == old(self).spec_pid_used()
                        &&& final(self).spec_store() == (if old(self).stores_publish() && !old(self).spec_store().contains(
                            key,
                        ) {
                            old(self).spec_store().push(key)
                        } else {
                            old(self).spec_store()
                        })
                        &&& header_qos(packet.spec_fixed_header()) == 1 ==> final(self).spec_pid_puback()
                            == old(self).spec_pid_puback().insert(v) && final(self).spec_pid_pubrec()
                            == old(self).spec_pid_pubrec()
                        &&& header_qos(packet.spec_fixed_header()) != 1 ==> final(self).spec_pid_pubrec()
                            == old(self).spec_pid_pubrec().insert(v) && final(self).spec_pid_puback()
                            == old(self).spec_pid_puback()
                        &&& r@ == (if old(self).spec_status() == ConnectionStatus::Connected {
                            seq![
                                GenericEvent::RequestSendPacket {
                                    packet: GenericPacket::V3_1_1Publish(packet),
                                    release_packet_id_if_send_error: if old(self).stores_publish() {
                                        None
                                    } else {
                                        Some(id)
                                    },
                                },
                            ] + old(self).post_process_events()
                        } else {
                            Seq::<GenericEvent<PacketIdType>>::empty()
                        })
                    },
                }
            },
            old(self).v3_store_effect(*final(self), packet),
    {
        let mut events: Vec<GenericEvent<PacketIdType>> = Vec::new();
        let mut release_packet_id_if_send_error: Option<PacketIdType> = None;
        let qos = packet.qos().to_u8();
        if qos != 0 {
            let packet_id = packet.packet_id().unwrap();
            if self.status != ConnectionStatus::Connected && !self.need_store && !self.offline_publish {
                events.push(GenericEvent::NotifyError(MqttError::PacketNotAllowedToSend));
                self.release_if_used(packet_id, &mut events);
                return events;
            }
            if !self.pid_man.is_used_id(packet_id) {
                events.push(GenericEvent::NotifyError(MqttError::PacketIdentifierInvalid));
                return events;
            }
            if self.need_store && (self.status != ConnectionStatus::Disconnected || self.offline_publish) {
                let store_packet = packet.duplicate().set_dup(true);
                let ghost sp0 = self.spec_store_packets();
                let _ = self.store.add(GenericStorePacket::V3_1_1Publish(store_packet));
                proof {
                    if self.spec_store_packets().len() == sp0.len() + 1 {
                        assert(self.spec_store_packets().drop_last() =~= sp0);
                    }
                }
            } else {
                release_packet_id_if_send_error = Some(packet_id);
            }
            if qos == 2 {
                self.pid_pubrec.insert(packet_id.value());
            } else {
                self.pid_puback.insert(packet_id.value());
            }
        } else if self.status != ConnectionStatus::Connected {
            events.push(GenericEvent::NotifyError(MqttError::PacketNotAllowedToSend));
            return events;
        }
        if self.status == ConnectionStatus::Connected {
            events.push(GenericEvent::RequestSendPacket {
                packet: GenericPacket::V3_1_1Publish(packet),
                release_packet_id_if_send_error,
            });
            self.send_post_process(&mut events);
        }
        events
    }


    /// Stores a v5.0 PUBLISH with QoS 1 or 2 for retransmission, with DUP
    /// set and without a TopicAlias property. A packet without a topic name
    /// takes the topic its alias stands for: when the alias is not
    /// registered (or the topic does not fit the packet) the packet is
    /// refused and its identifier released, and false is returned.
    #[verifier::rlimit(80)]
    fn store_v5_publish(
        &mut self,
        packet: &v5_0::publish::GenericPublish<PacketIdType>,
        id: PacketIdType,
        ta_opt: Option<u16>,
        events: &mut Vec<GenericEvent<PacketIdType>>,
    ) -> (ok: bool)
        requires
            header_qos(packet.spec_fixed_header()) != 0,
            packet.spec_packet_id() == Some(id),
            ta_opt == first_topic_alias(packet.spec_props()),
        ensures
            final(self).wf() == old(self).wf(),
            final(self).spec_status() == old(self).spec_status(),
            ok ==> final(events)@ == old(events)@ && final(self).spec_pid_used() == old(self).spec_pid_used(),
            ok ==> {
                let key = (
                    if header_qos(packet.spec_fixed_header()) == 1 {
                        ResponsePacket::V5_0Puback
                    } else {
                        ResponsePacket::V5_0Pubrec
                    },
                    id.spec_value(),
                );
                final(self).spec_store() == (if !old(self).spec_store().contains(key) {
                    old(self).spec_store().push(key)
                } else {
                    old(self).spec_store()
                })
            },
            !ok ==> packet.spec_topic_name().len() == 0 && final(events)@ == old(events)@ + seq![
                GenericEvent::<PacketIdType>::NotifyError(MqttError::PacketNotAllowedToSend),
            ] + old(self).release_events(id) && final(self).spec_pid_used() == old(self).spec_pid_used().remove(
                id.spec_value() as u32,
            ) && final(self).spec_store() == old(self).spec_store(),
            packet.spec_topic_name().len() != 0 ==> ok && final(self).topic_alias_send == old(self).topic_alias_send,
            *final(self) == (GenericConnection {
                store: final(self).store,
                pid_man: final(self).pid_man,
                topic_alias_send: final(self).topic_alias_send,
                ..*old(self)
            }),
            ({
                let key = (
                    if header_qos(packet.spec_fixed_header()) == 1 {
                        ResponsePacket::V5_0Puback
                    } else {
                        ResponsePacket::V5_0Pubrec
                    },
                    id.spec_value(),
                );
                if ok && !old(self).spec_store().contains(key) {
                    &&& final(self).spec_store_packets().len() == old(self).spec_store_packets().len() + 1
                    &&& final(self).spec_store_packets().drop_last() == old(self).spec_store_packets()
                    &&& final(self).spec_store_packets().last() matches GenericStorePacket::V5_0Publish(q) && {
                        &&& crate::packet::publish_common::header_dup(q.spec_fixed_header())
                        &&& header_qos(q.spec_fixed_header()) == header_qos(packet.spec_fixed_header())
                        &&& q.spec_packet_id() == packet.spec_packet_id()
                        &&& q.spec_payload() == packet.spec_payload()
                        &&& packet.spec_topic_name().len() != 0 ==> q.spec_topic_name() == packet.spec_topic_name()
                    }
                } else {
                    final(self).spec_store_packets() == old(self).spec_store_packets()
                }
            }),
    {
        if packet.topic_name().is_empty() {
            let topic = match self.validate_topic_alias(ta_opt) {
                Some(t) => t,
                None => {
                    events.push(GenericEvent::NotifyError(MqttError::PacketNotAllowedToSend));
                    self.release_if_used(id, events);
                    return false;
                },
            };
            let tl = topic.as_str().len();
            let d = packet.duplicate();
            let mut fits = false;
            if tl <= 65535 {
                let pl = d.props_size_without_topic_alias();
                if d.body_len_with(tl, pl) <= crate::packet::variable_byte_integer::VBI_MAX as u64 {
                    fits = true;
                }
            }
            if fits {
                match d.remove_topic_alias_add_topic(topic.as_str()) {
                    Ok(p) => {
                        let sp = p.set_dup(true);
                        let ghost sp0 = self.spec_store_packets();
                        let _ = self.store.add(GenericStorePacket::V5_0Publish(sp));
                        proof {
                            if self.spec_store_packets().len() == sp0.len() + 1 {
                                assert(self.spec_store_packets().drop_last() =~= sp0);
                            }
                        }
                        return true;
                    },
                    Err(_) => {},
                }
            }
            events.push(GenericEvent::NotifyError(MqttError::PacketNotAllowedToSend));
            self.release_if_used(id, events);
            false
        } else {
            let sp = packet.duplicate().remove_topic_alias().set_dup(true);
            let ghost sp0 = self.spec_store_packets();
            let _ = self.store.add(GenericStorePacket::V5_0Publish(sp));
            proof {
                if self.spec_store_packets().len() == sp0.len() + 1 {
                    assert(self.spec_store_packets().drop_last() =~= sp0);
                }
            }
            true
        }
    }

    /// `r` is `packet` with its topic alias properties replaced by a
    /// TopicAlias `alias` at the end, the topic name emptied when
    /// `drop_topic` and kept otherwise, the rest unchanged.
    pub open spec fn with_alias(
        packet: v5_0::publish::GenericPublish<PacketIdType>,
        r: v5_0::publish::GenericPublish<PacketIdType>,
        alias: u16,
        drop_topic: bool,
    ) -> bool {
        &&& (if drop_topic { r.spec_topic_name().len() == 0 } else { r.spec_topic_name() == packet.spec_topic_name() })
        &&& r.spec_fixed_header() == packet.spec_fixed_header()
        &&& r.spec_packet_id() == packet.spec_packet_id()
        &&& r.spec_payload() == packet.spec_payload()
        &&& r.spec_props().len() > 0
        &&& r.spec_props().drop_last() == crate::packet::property_check::props_without_topic_alias(packet.spec_props())
        &&& (r.spec_props().last() matches Property::TopicAlias(t) && t.spec_val() == alias)
    }

    /// Whether the body of `packet` with a topic name of `topic_len` bytes
    /// and its topic alias properties replaced by one TopicAlias fits.
    pub open spec fn alias_fits(packet: v5_0::publish::GenericPublish<PacketIdType>, topic_len: nat) -> bool {
        v5_0::publish::publish_body_len::<PacketIdType>(
            topic_len,
            packet.spec_packet_id() is Some,
            crate::packet::property::props_bytes(crate::packet::property_check::props_without_topic_alias(packet.spec_props())).len() + 3,
            packet.spec_payload().len(),
        ) <= crate::packet::variable_byte_integer::VBI_MAX
    }

    /// The alias the table hands out for a new topic: the smallest free
    /// one, or when all are taken, the least recently used one.
    pub open spec fn lru_alias(es: Seq<(u16, Seq<char>)>, max: u16, a: u16) -> bool {
        &&& 1 <= a <= max
        &&& (exists|b: u16| 1 <= b <= max && crate::connection::topic_alias_send::alias_index(es, b) is None) ==> {
            &&& crate::connection::topic_alias_send::alias_index(es, a) is None
            &&& forall|b: u16| 1 <= b < a ==> crate::connection::topic_alias_send::alias_index(es, b) is Some
        }
        &&& (forall|b: u16| 1 <= b <= max ==> crate::connection::topic_alias_send::alias_index(es, b) is Some) ==> a == es[0].0
    }

    /// What `apply_auto_topic_alias` does to `packet` and the connection.
    pub open spec fn auto_alias_outcome(
        self,
        after: Self,
        packet: v5_0::publish::GenericPublish<PacketIdType>,
        r: v5_0::publish::GenericPublish<PacketIdType>,
    ) -> bool {
        let unchanged = r == packet && after.spec_topic_alias_send() == self.spec_topic_alias_send();
        let map = self.spec_auto_map_topic_alias_send();
        let replace = !map && self.spec_auto_replace_topic_alias_send();
        let topic = packet.spec_topic_name();
        let pw = crate::packet::property::props_bytes(crate::packet::property_check::props_without_topic_alias(packet.spec_props())).len();
        match self.spec_topic_alias_send() {
            None => unchanged,
            Some(tas) => {
                let es = tas.spec_entries();
                let registered = exists|i: int| 0 <= i < es.len() && es[i].1 == topic;
                if !(map || replace) || pw > crate::packet::variable_byte_integer::VBI_MAX - 3 {
                    unchanged
                } else if registered {
                    if Self::alias_fits(packet, 0) {
                        after.spec_topic_alias_send() == self.spec_topic_alias_send() && exists|i: int| 0 <= i < es.len() && es[i].1 == topic && Self::with_alias(packet, r, es[i].0, true)
                    } else {
                        unchanged
                    }
                } else if map && tas.spec_max() >= 1 && packet.spec_topic_bytes().len() <= 65535
                    && Self::alias_fits(packet, packet.spec_topic_bytes().len()) {
                    exists|a: u16| {
                        &&& Self::lru_alias(es, tas.spec_max(), a)
                        &&& Self::with_alias(packet, r, a, false)
                        &&& (after.spec_topic_alias_send() matches Some(t2)
                            && t2.spec_max() == tas.spec_max()
                            && t2.spec_entries() == crate::connection::topic_alias_send::without_alias_or_topic(es, a, topic).push((a, topic)))
                    }
                } else {
                    unchanged
                }
            },
        }
    }

    /// Applies the automatic topic aliases to a v5.0 PUBLISH with a topic
    /// name and no TopicAlias property. With automatic mapping, a registered
    /// topic is replaced by its alias, and an unregistered one gets the least
    /// recently used alias, sent beside the topic name. With automatic
    /// replacement only, a registered topic is replaced by its alias. A
    /// packet that the alias would make too large is left as it is, and so
    /// is any packet when the peer accepts no alias.
    fn apply_auto_topic_alias(
        &mut self,
        packet: v5_0::publish::GenericPublish<PacketIdType>,
    ) -> (r: v5_0::publish::GenericPublish<PacketIdType>)
        ensures
            final(self).wf() == old(self).wf(),
            final(self).spec_status() == old(self).spec_status(),
            final(self).spec_pid_used() == old(self).spec_pid_used(),
            final(self).spec_store() == old(self).spec_store(),
            r.spec_fixed_header() == packet.spec_fixed_header(),
            r.spec_packet_id() == packet.spec_packet_id(),
            r.spec_payload() == packet.spec_payload(),
            !old(self).spec_auto_map_topic_alias_send() && !old(self).spec_auto_replace_topic_alias_send() ==> r
                == packet && *final(self) == *old(self),
            old(self).spec_topic_alias_send() is None ==> r == packet && *final(self) == *old(self),
            *final(self) == (GenericConnection { topic_alias_send: final(self).topic_alias_send, ..*old(self) }),
            old(self).auto_alias_outcome(*final(self), packet, r),
    {
        let ghost p0 = packet;
        let ghost s0 = *self;
        let mut packet = packet;
        if self.auto_map_topic_alias_send {
            match self.topic_alias_send.take() {
                Some(mut tas) => {
                    let ghost es = tas.spec_entries();
                    let pw = packet.props_size_without_topic_alias();
                    if pw <= crate::packet::variable_byte_integer::VBI_MAX as usize - 3 {
                        match tas.find_by_topic(packet.topic_name()) {
                            Some(found) => {
                                if packet.body_len_with(0, pw + 3) <= crate::packet::variable_byte_integer::VBI_MAX as u64 {
                                    packet = packet.remove_topic_add_topic_alias(found);
                                    proof {
                                        let k = choose|k: int| 0 <= k < es.len() && es[k] == (found, p0.spec_topic_name());
                                        assert(es[k].1 == p0.spec_topic_name() && Self::with_alias(p0, packet, es[k].0, true));
                                    }
                                }
                            },
                            None => {
                                let tl = packet.topic_name_len();
                                if tas.max() >= 1 && tl <= 65535 {
                                    let bl = packet.body_len_with(tl, pw + 3);
                                    if bl <= crate::packet::variable_byte_integer::VBI_MAX as u64 {
                                        let lru = tas.get_lru_alias();
                                        tas.insert_or_update(packet.topic_name(), lru);
                                        packet = packet.add_topic_alias(lru);
                                        proof {
                                            assert(Self::lru_alias(es, s0.spec_topic_alias_send().unwrap().spec_max(), lru));
                                            assert(Self::with_alias(p0, packet, lru, false));
                                        }
                                    }
                                }
                            },
                        }
                    }
                    self.topic_alias_send = Some(tas);
                },
                None => {},
            }
        } else if self.auto_replace_topic_alias_send {
            if let Some(tas) = &self.topic_alias_send {
                let ghost es = tas.spec_entries();
                let pw = packet.props_size_without_topic_alias();
                if pw <= crate::packet::variable_byte_integer::VBI_MAX as usize - 3 {
                    if let Some(found) = tas.find_by_topic(packet.topic_name()) {
                        if packet.body_len_with(0, pw + 3) <= crate::packet::variable_byte_integer::VBI_MAX as u64 {
                            packet = packet.remove_topic_add_topic_alias(found);
                            proof {
                                let k = choose|k: int| 0 <= k < es.len() && es[k] == (found, p0.spec_topic_name());
                                assert(es[k].1 == p0.spec_topic_name() && Self::with_alias(p0, packet, es[k].0, true));
                            }
                        }
                    }
                }
            }
        }
        packet
    }

    /// The result of the receive maximum check for a PUBLISH with QoS 1 or
    /// 2: refused when as many are waiting for their acknowledgement as the
    /// peer accepts.
    pub open spec fn receive_maximum_reached(self) -> bool {
        self.spec_publish_send_max() matches Some(m) && self.spec_publish_send_count() >= m
    }

    /// The receive maximum check for a PUBLISH with QoS 1 or 2: when the
    /// peer's receive maximum is reached the packet is refused and its
    /// identifier released; otherwise one more PUBLISH is counted, when a
    /// maximum is set.
    fn check_receive_maximum(&mut self, packet_id: PacketIdType, events: &mut Vec<GenericEvent<PacketIdType>>) -> (ok: bool)
        ensures
            ok == !old(self).receive_maximum_reached(),
            !ok ==> final(events)@ == old(events)@ + seq![
                GenericEvent::<PacketIdType>::NotifyError(MqttError::ReceiveMaximumExceeded),
            ] + old(self).release_events(packet_id) && *final(self) == (GenericConnection {
                pid_man: final(self).pid_man,
                ..*old(self)
            }) && final(self).spec_pid_used() == old(self).spec_pid_used().remove(packet_id.spec_value() as u32),
            ok ==> final(events)@ == old(events)@ && *final(self) == (GenericConnection {
                publish_send_count: if old(self).spec_publish_send_max() is Some {
                    (old(self).publish_send_count + 1) as u16
                } else {
                    old(self).publish_send_count
                },
                ..*old(self)
            }),
    {
        if let Some(max) = self.publish_send_max {
            if self.publish_send_count >= max {
                events.push(GenericEvent::NotifyError(MqttError::ReceiveMaximumExceeded));
                self.release_if_used(packet_id, events);
                return false;
            }
            self.publish_send_count = self.publish_send_count + 1;
        }
        true
    }

    /// The events of refusing to send a PUBLISH for its topic alias:
    /// PacketNotAllowedToSend, and the release of its identifier if any.
    pub open spec fn alias_refusal_events(self, id: Option<PacketIdType>) -> Seq<GenericEvent<PacketIdType>> {
        seq![GenericEvent::<PacketIdType>::NotifyError(MqttError::PacketNotAllowedToSend)] + match id {
            Some(i) => self.release_events(i),
            None => Seq::<GenericEvent<PacketIdType>>::empty(),
        }
    }

    /// What the topic alias step does to a v5.0 PUBLISH being sent: `res`
    /// is the packet to send (`None` when refused) and `tas` the alias
    /// table afterwards.
    /// - Without a topic name (unless the alias was checked already), the
    ///   TopicAlias must be in range and registered; the packet is sent as
    ///   it is.
    /// - With a topic name and a TopicAlias, the alias must be in range, and
    ///   the table then maps it to the topic.
    /// - With a topic name and no TopicAlias, the automatic aliases apply
    ///   when connected (see `auto_alias_outcome`).
    pub open spec fn alias_send_outcome(
        self,
        packet: v5_0::publish::GenericPublish<PacketIdType>,
        validated: bool,
        tas: Option<TopicAliasSend>,
        res: Option<v5_0::publish::GenericPublish<PacketIdType>>,
    ) -> bool {
        let ta = first_topic_alias(packet.spec_props());
        let topic = packet.spec_topic_name();
        if topic.len() == 0 {
            if validated {
                res == Some(packet) && tas == self.spec_topic_alias_send()
            } else {
                &&& (res is Some <==> (ta matches Some(a) && self.spec_topic_alias_send() matches Some(t)
                    && 1 <= a <= t.spec_max() && exists|i: int| 0 <= i < t.spec_entries().len() && t.spec_entries()[i].0 == a))
                &&& res is Some ==> res == Some(packet)
                &&& tas is Some == self.spec_topic_alias_send() is Some
            }
        } else if ta is Some {
            &&& (res is Some <==> (self.spec_topic_alias_send() matches Some(t) && 1 <= ta.unwrap() <= t.spec_max()))
            &&& res is Some ==> res == Some(packet) && tas is Some && tas.unwrap().spec_max() == self.spec_topic_alias_send().unwrap().spec_max()
                && tas.unwrap().spec_entries() == crate::connection::topic_alias_send::without_alias_or_topic(
                self.spec_topic_alias_send().unwrap().spec_entries(),
                ta.unwrap(),
                topic,
            ).push((ta.unwrap(), topic))
            &&& res is None ==> tas == self.spec_topic_alias_send()
        } else if self.spec_status() == ConnectionStatus::Connected {
            res is Some && exists|a: Self| #[trigger] self.auto_alias_outcome(a, packet, res.unwrap()) && a.spec_topic_alias_send() == tas
        } else {
            res == Some(packet) && tas == self.spec_topic_alias_send()
        }
    }

    /// The topic alias step of sending a v5.0 PUBLISH (see
    /// `process_send_v5_0_publish`): a packet without a topic name needs a
    /// registered alias (unless already checked); a TopicAlias property
    /// beside a topic name registers the alias, when in range; otherwise the
    /// automatic aliases apply when connected. A refused packet gives `None`,
    /// with its identifier released.
    fn resolve_topic_alias_send(
        &mut self,
        packet: v5_0::publish::GenericPublish<PacketIdType>,
        packet_id_opt: Option<PacketIdType>,
        ta_opt: Option<u16>,
        topic_alias_validated: bool,
        events: &mut Vec<GenericEvent<PacketIdType>>,
    ) -> (r: Option<v5_0::publish::GenericPublish<PacketIdType>>)
        requires
            packet_id_opt == packet.spec_packet_id(),
            ta_opt == first_topic_alias(packet.spec_props()),
            topic_alias_validated ==> packet.spec_topic_name().len() == 0,
        ensures
            final(self).wf() == old(self).wf(),
            final(self).spec_status() == old(self).spec_status(),
            final(self).spec_store() == old(self).spec_store(),
            final(self).spec_pid_puback() == old(self).spec_pid_puback(),
            final(self).spec_pid_pubrec() == old(self).spec_pid_pubrec(),
            final(self).spec_publish_send_max() == old(self).spec_publish_send_max(),
            final(self).spec_publish_send_count() == old(self).spec_publish_send_count(),
            final(self).post_process_events() == old(self).post_process_events(),
            r matches Some(p) ==> final(events)@ == old(events)@ && final(self).spec_pid_used() == old(self).spec_pid_used()
                && p.spec_fixed_header() == packet.spec_fixed_header() && p.spec_packet_id() == packet.spec_packet_id(),
            old(self).publish_plain(packet) ==> r == Some(packet) && *final(self) == *old(self),
            *final(self) == (GenericConnection {
                topic_alias_send: final(self).topic_alias_send,
                pid_man: final(self).pid_man,
                ..*old(self)
            }),
            old(self).alias_send_outcome(packet, topic_alias_validated, final(self).spec_topic_alias_send(), r),
            r is None ==> final(events)@ == old(events)@ + old(self).alias_refusal_events(packet_id_opt)
                && final(self).spec_pid_used() == (match packet_id_opt {
                Some(i) => old(self).spec_pid_used().remove(i.spec_value() as u32),
                None => old(self).spec_pid_used(),
            }),
    {
        let mut packet = packet;
        if packet.topic_name().is_empty() {
            if !topic_alias_validated && self.validate_topic_alias(ta_opt).is_none() {
                events.push(GenericEvent::NotifyError(MqttError::PacketNotAllowedToSend));
                if let Some(packet_id) = packet_id_opt {
                    self.release_if_used(packet_id, events);
                }
                return None;
            }
        } else if let Some(ta) = ta_opt {
            if self.validate_topic_alias_range(ta) {
                if let Some(tas) = &mut self.topic_alias_send {
                    tas.insert_or_update(packet.topic_name(), ta);
                }
            } else {
                events.push(GenericEvent::NotifyError(MqttError::PacketNotAllowedToSend));
                if let Some(packet_id) = packet_id_opt {
                    self.release_if_used(packet_id, events);
                }
                return None;
            }
        } else if self.status == ConnectionStatus::Connected {
            packet = self.apply_auto_topic_alias(packet);
        }
        Some(packet)
    }

    /// The part of sending a v5.0 PUBLISH after its QoS 1 or 2 flow is set up
    /// (see `process_send_v5_0_publish`): the topic alias, the receive
    /// maximum, and the send.
    #[verifier::rlimit(100)]
    #[verifier::spinoff_prover]
    fn send_v5_publish_tail(
        &mut self,
        packet: v5_0::publish::GenericPublish<PacketIdType>,
        qos: u8,
        packet_id_opt: Option<PacketIdType>,
        ta_opt: Option<u16>,
        topic_alias_validated: bool,
        release_packet_id_if_send_error: Option<PacketIdType>,
        events: &mut Vec<GenericEvent<PacketIdType>>,
    )
        requires
            qos == header_qos(packet.spec_fixed_header()),
            packet_id_opt == packet.spec_packet_id(),
            packet_id_opt is Some <==> qos != 0,
            ta_opt == first_topic_alias(packet.spec_props()),
            topic_alias_validated ==> packet.spec_topic_name().len() == 0,
            qos == 0 ==> old(self).spec_status() == ConnectionStatus::Connected,
        ensures
            final(self).wf() == old(self).wf(),
            final(self).spec_status() == old(self).spec_status(),
            final(self).spec_store() == old(self).spec_store(),
            final(self).spec_pid_puback() == old(self).spec_pid_puback(),
            final(self).spec_pid_pubrec() == old(self).spec_pid_pubrec(),
            old(self).publish_plain(packet) && qos != 0 && old(self).receive_maximum_reached() ==> final(events)@
                == old(events)@ + seq![GenericEvent::<PacketIdType>::NotifyError(MqttError::ReceiveMaximumExceeded)]
                + old(self).release_events(packet_id_opt.unwrap()) && final(self).spec_pid_used() == old(self).spec_pid_used().remove(packet_id_opt.unwrap().spec_value() as u32)
                && final(self).spec_publish_send_count() == old(self).spec_publish_send_count(),
            old(self).publish_plain(packet) && !(qos != 0 && old(self).receive_maximum_reached()) ==> {
                &&& final(self).spec_pid_used() == old(self).spec_pid_used()
                &&& final(self).spec_publish_send_count() == (if qos != 0 && old(self).spec_publish_send_max() is Some {
                    (old(self).spec_publish_send_count() + 1) as u16
                } else {
                    old(self).spec_publish_send_count()
                })
                &&& final(events)@ == old(events)@ + (if old(self).spec_status() == ConnectionStatus::Connected {
                    seq![
                        GenericEvent::RequestSendPacket {
                            packet: GenericPacket::V5_0Publish(packet),
                            release_packet_id_if_send_error: release_packet_id_if_send_error,
                        },
                    ] + old(self).post_process_events()
                } else {
                    Seq::<GenericEvent<PacketIdType>>::empty()
                })
                &&& qos == 0 ==> *final(self) == old(self).after_post_process()
            },
            final(events)@.len() >= old(events)@.len(),
            final(events)@.take(old(events)@.len() as int) == old(events)@,
            old(self).v5_tail_outcome(*final(self), packet, topic_alias_validated, release_packet_id_if_send_error, final(events)@.skip(old(events)@.len() as int)),
    {
        let ghost e0 = events@;
        let ghost gp = packet;
        let resolved = self.resolve_topic_alias_send(packet, packet_id_opt, ta_opt, topic_alias_validated, events);
        let ghost res = resolved;
        let ghost tas = self.spec_topic_alias_send();
        proof {
            assert(old(self).alias_send_outcome(gp, topic_alias_validated, tas, res));
        }
        let ghost e1 = events@;
        let packet = match resolved {
            Some(p) => p,
            None => {
                proof {
                    assert(events@.skip(e0.len() as int) =~= old(self).alias_refusal_events(packet_id_opt));
                    assert(events@.take(e0.len() as int) =~= e0);
                    assert(old(self).alias_send_outcome(gp, topic_alias_validated, tas, res) && self.spec_topic_alias_send() == tas);
                }
                return;
            },
        };
        if qos != 0 {
            let packet_id = packet_id_opt.unwrap();
            if !self.check_receive_maximum(packet_id, events) {
                proof {
                    assert(events@.skip(e0.len() as int) =~= seq![
                        GenericEvent::<PacketIdType>::NotifyError(MqttError::ReceiveMaximumExceeded),
                    ] + old(self).release_events(packet_id_opt.unwrap()));
                    assert(events@.take(e0.len() as int) =~= e0);
                    assert(old(self).alias_send_outcome(gp, topic_alias_validated, tas, res) && self.spec_topic_alias_send() == tas);
                }
                return;
            }
        }
        let ghost e2 = events@;
        let ghost s2 = *self;
        proof {
            assert(e2 == e0);
            assert(s2.post_process_events() == old(self).post_process_events());
        }
        if self.status == ConnectionStatus::Connected {
            events.push(GenericEvent::RequestSendPacket {
                packet: GenericPacket::V5_0Publish(packet),
                release_packet_id_if_send_error,
            });
            self.send_post_process(events);
            proof {
                assert(events@.skip(e0.len() as int) =~= seq![
                    GenericEvent::RequestSendPacket {
                        packet: GenericPacket::V5_0Publish(packet),
                        release_packet_id_if_send_error: release_packet_id_if_send_error,
                    },
                ] + old(self).post_process_events());
            }
        } else {
            proof {
                assert(events@.skip(e0.len() as int) =~= Seq::<GenericEvent<PacketIdType>>::empty());
            }
        }
        proof {
            assert(events@.skip(e0.len() as int) =~= events@.subrange(e0.len() as int, events@.len() as int));
            assert(events@.take(e0.len() as int) =~= e0);
            assert(old(self).alias_send_outcome(gp, topic_alias_validated, tas, res) && self.spec_topic_alias_send() == tas);
            assert(res == Some(packet));
        }
    }

    /// Whether sending the v5.0 PUBLISH involves no topic alias: it has a
    /// topic name and no TopicAlias property, and no automatic alias applies.
    pub open spec fn publish_plain(self, packet: v5_0::publish::GenericPublish<PacketIdType>) -> bool {
        &&& packet.spec_topic_name().len() != 0
        &&& first_topic_alias(packet.spec_props()) is None
        &&& !(self.spec_status() == ConnectionStatus::Connected && self.spec_topic_alias_send() is Some && (
        self.spec_auto_map_topic_alias_send() || self.spec_auto_replace_topic_alias_send()))
    }

    /// The events `r` and the state `after` of the last part of sending a
    /// v5.0 PUBLISH: the topic alias step (see `alias_send_outcome`) gives
    /// the packet to send and the new alias table, or refuses it; then the
    /// receive maximum and the send (sent only when connected, with
    /// `release` as the identifier to release if the send fails).
    pub open spec fn v5_tail_outcome(
        self,
        after: Self,
        packet: v5_0::publish::GenericPublish<PacketIdType>,
        validated: bool,
        release: Option<PacketIdType>,
        r: Seq<GenericEvent<PacketIdType>>,
    ) -> bool {
        let q = header_qos(packet.spec_fixed_header());
        let pid = packet.spec_packet_id();
        exists|res: Option<v5_0::publish::GenericPublish<PacketIdType>>, tas: Option<TopicAliasSend>|
            #[trigger] self.alias_send_outcome(packet, validated, tas, res) && after.spec_topic_alias_send() == tas && {
            &&& res is None ==> r == self.alias_refusal_events(pid) && after.spec_pid_used() == (match pid {
                Some(i) => self.spec_pid_used().remove(i.spec_value() as u32),
                None => self.spec_pid_used(),
            }) && after.spec_publish_send_count() == self.spec_publish_send_count()
            &&& res is Some && q != 0 && self.receive_maximum_reached() ==> r == seq![
                GenericEvent::<PacketIdType>::NotifyError(MqttError::ReceiveMaximumExceeded),
            ] + self.release_events(pid.unwrap()) && after.spec_pid_used() == self.spec_pid_used().remove(pid.unwrap().spec_value() as u32)
                && after.spec_publish_send_count() == self.spec_publish_send_count()
            &&& res is Some && !(q != 0 && self.receive_maximum_reached()) ==> {
                &&& after.spec_pid_used() == self.spec_pid_used()
                &&& after.spec_publish_send_count() == (if q != 0 && self.spec_publish_send_max() is Some {
                    (self.spec_publish_send_count() + 1) as u16
                } else {
                    self.spec_publish_send_count()
                })
                &&& r == (if self.spec_status() == ConnectionStatus::Connected {
                    seq![
                        GenericEvent::RequestSendPacket {
                            packet: GenericPacket::V5_0Publish(res.unwrap()),
                            release_packet_id_if_send_error: release,
                        },
                    ] + self.post_process_events()
                } else {
                    Seq::<GenericEvent<PacketIdType>>::empty()
                })
            }
        }
    }

    /// What sending a v5.0 PUBLISH that is not stored does once it passed
    /// the size and QoS checks (see `v5_tail_outcome`): an identifier of
    /// QoS 1 or 2 waits for its PUBACK or PUBREC and is the one released if
    /// the send fails.
    pub open spec fn v5_publish_alias_sent(self, after: Self, packet: v5_0::publish::GenericPublish<PacketIdType>, r: Seq<GenericEvent<PacketIdType>>) -> bool {
        let q = header_qos(packet.spec_fixed_header());
        let pid = packet.spec_packet_id();
        &&& self.v5_tail_outcome(after, packet, false, if q != 0 { pid } else { None }, r)
        &&& q == 1 ==> after.spec_pid_puback() == self.spec_pid_puback().insert(pid.unwrap().spec_value() as u32)
        &&& q == 2 ==> after.spec_pid_pubrec() == self.spec_pid_pubrec().insert(pid.unwrap().spec_value() as u32)
    }

    /// The tail outcome depends only on what the accessors below show.
    proof fn lemma_tail_outcome_transfer(
        s0: Self,
        mid: Self,
        after: Self,
        packet: v5_0::publish::GenericPublish<PacketIdType>,
        release: Option<PacketIdType>,
        r: Seq<GenericEvent<PacketIdType>>,
    )
        requires
            mid.v5_tail_outcome(after, packet, false, release, r),
            mid.spec_topic_alias_send() == s0.spec_topic_alias_send(),
            mid.spec_status() == s0.spec_status(),
            mid.spec_auto_map_topic_alias_send() == s0.spec_auto_map_topic_alias_send(),
            mid.spec_auto_replace_topic_alias_send() == s0.spec_auto_replace_topic_alias_send(),
            mid.spec_pid_used() == s0.spec_pid_used(),
            mid.spec_publish_send_count() == s0.spec_publish_send_count(),
            mid.spec_publish_send_max() == s0.spec_publish_send_max(),
            mid.post_process_events() == s0.post_process_events(),
        ensures
            s0.v5_tail_outcome(after, packet, false, release, r),
    {
        let (res, tas) = choose|res: Option<v5_0::publish::GenericPublish<PacketIdType>>, tas: Option<TopicAliasSend>|
            #[trigger] mid.alias_send_outcome(packet, false, tas, res) && after.spec_topic_alias_send() == tas && {
            let q = header_qos(packet.spec_fixed_header());
            let pid = packet.spec_packet_id();
            &&& res is None ==> r == mid.alias_refusal_events(pid) && after.spec_pid_used() == (match pid {
                Some(i) => mid.spec_pid_used().remove(i.spec_value() as u32),
                None => mid.spec_pid_used(),
            }) && after.spec_publish_send_count() == mid.spec_publish_send_count()
            &&& res is Some && q != 0 && mid.receive_maximum_reached() ==> r == seq![
                GenericEvent::<PacketIdType>::NotifyError(MqttError::ReceiveMaximumExceeded),
            ] + mid.release_events(pid.unwrap()) && after.spec_pid_used() == mid.spec_pid_used().remove(pid.unwrap().spec_value() as u32)
                && after.spec_publish_send_count() == mid.spec_publish_send_count()
            &&& res is Some && !(q != 0 && mid.receive_maximum_reached()) ==> {
                &&& after.spec_pid_used() == mid.spec_pid_used()
                &&& after.spec_publish_send_count() == (if q != 0 && mid.spec_publish_send_max() is Some {
                    (mid.spec_publish_send_count() + 1) as u16
                } else {
                    mid.spec_publish_send_count()
                })
                &&& r == (if mid.spec_status() == ConnectionStatus::Connected {
                    seq![
                        GenericEvent::RequestSendPacket {
                            packet: GenericPacket::V5_0Publish(res.unwrap()),
                            release_packet_id_if_send_error: release,
                        },
                    ] + mid.post_process_events()
                } else {
                    Seq::<GenericEvent<PacketIdType>>::empty()
                })
            }
        };
        if packet.spec_topic_name().len() != 0 && first_topic_alias(packet.spec_props()) is None
            && mid.spec_status() == ConnectionStatus::Connected {
            let a = choose|a: Self| #[trigger] mid.auto_alias_outcome(a, packet, res.unwrap()) && a.spec_topic_alias_send() == tas;
            assert(s0.auto_alias_outcome(a, packet, res.unwrap()));
        }
        assert(s0.alias_send_outcome(packet, false, tas, res));
    }

    /// Whether sending v5.0 `packet` reaches the topic alias step without
    /// being stored: it fits, and it is QoS 0 while connected, or QoS 1 or 2
    /// accepted for sending while the session is not stored.
    pub open spec fn v5_publish_unstored(self, packet: v5_0::publish::GenericPublish<PacketIdType>) -> bool {
        let q = header_qos(packet.spec_fixed_header());
        &&& GenericPacket::V5_0Publish(packet).spec_size() <= self.spec_maximum_packet_size_send()
        &&& (q == 0 ==> self.spec_status() == ConnectionStatus::Connected)
        &&& (q != 0 ==> self.publish_refused(packet.spec_packet_id().unwrap()) is None && !self.stores_publish())
    }

    /// What sending a v5.0 PUBLISH does (see `process_send_v5_0_publish`).
    pub open spec fn v5_publish_send_outcome(self, after: Self, packet: v5_0::publish::GenericPublish<PacketIdType>, r: Seq<GenericEvent<PacketIdType>>) -> bool {
        &&& (after.wf() == self.wf())
        &&& (self.v5_publish_unstored(packet) ==> self.v5_publish_alias_sent(after, packet, r))
        &&& (after.spec_status() == self.spec_status())
        &&& (GenericPacket::V5_0Publish(packet).spec_size() > self.spec_maximum_packet_size_send() ==> r == seq![
                GenericEvent::<PacketIdType>::NotifyError(MqttError::PacketTooLarge),
            ] && after == self)
        &&& (GenericPacket::V5_0Publish(packet).spec_size() <= self.spec_maximum_packet_size_send() && header_qos(
                packet.spec_fixed_header(),
            ) == 0 && self.spec_status() != ConnectionStatus::Connected ==> r == seq![
                GenericEvent::<PacketIdType>::NotifyError(MqttError::PacketNotAllowedToSend),
            ] && after == self)
        &&& (GenericPacket::V5_0Publish(packet).spec_size() <= self.spec_maximum_packet_size_send() && header_qos(
                packet.spec_fixed_header(),
            ) != 0 ==> (self.publish_refused(packet.spec_packet_id().unwrap()) matches Some(ev) ==> r == ev
                && after.spec_store() == self.spec_store() && after.spec_pid_used() == (if self.spec_status()
                != ConnectionStatus::Connected {
                self.spec_pid_used().remove(packet.spec_packet_id().unwrap().spec_value() as u32)
            } else {
                self.spec_pid_used()
            })))
        &&& (GenericPacket::V5_0Publish(packet).spec_size() <= self.spec_maximum_packet_size_send() && self.publish_plain(packet) && header_qos(packet.spec_fixed_header()) == 0 && self.spec_status()
                == ConnectionStatus::Connected ==> r == seq![
                GenericEvent::RequestSendPacket {
                    packet: GenericPacket::V5_0Publish(packet),
                    release_packet_id_if_send_error: None,
                },
            ] + self.post_process_events() && after == self.after_post_process())
        &&& (GenericPacket::V5_0Publish(packet).spec_size() <= self.spec_maximum_packet_size_send() && self.publish_plain(packet) && header_qos(packet.spec_fixed_header()) != 0 && self.publish_refused(
                packet.spec_packet_id().unwrap(),
            ) is None ==> {
                let id = packet.spec_packet_id().unwrap();
                let v = id.spec_value() as u32;
                let key = (
                    if header_qos(packet.spec_fixed_header()) == 1 {
                        ResponsePacket::V5_0Puback
                    } else {
                        ResponsePacket::V5_0Pubrec
                    },
                    id.spec_value(),
                );
                &&& after.spec_store() == (if self.stores_publish() && !self.spec_store().contains(key) {
                    self.spec_store().push(key)
                } else {
                    self.spec_store()
                })
                &&& header_qos(packet.spec_fixed_header()) == 1 ==> after.spec_pid_puback()
                    == self.spec_pid_puback().insert(v)
                &&& header_qos(packet.spec_fixed_header()) != 1 ==> after.spec_pid_pubrec()
                    == self.spec_pid_pubrec().insert(v)
                &&& self.receive_maximum_reached() ==> r == seq![
                    GenericEvent::<PacketIdType>::NotifyError(MqttError::ReceiveMaximumExceeded),
                    GenericEvent::<PacketIdType>::NotifyPacketIdReleased(id),
                ] && after.spec_pid_used() == self.spec_pid_used().remove(v)
                    && after.spec_publish_send_count() == self.spec_publish_send_count()
                &&& !self.receive_maximum_reached() ==> {
                    &&& after.spec_pid_used() == self.spec_pid_used()
                    &&& after.spec_publish_send_count() == (if self.spec_publish_send_max() is Some {
                        (self.spec_publish_send_count() + 1) as u16
                    } else {
                        self.spec_publish_send_count()
                    })
                    &&& r == (if self.spec_status() == ConnectionStatus::Connected {
                        seq![
                            GenericEvent::RequestSendPacket {
                                packet: GenericPacket::V5_0Publish(packet),
                                release_packet_id_if_send_error: if self.stores_publish() {
                                    None
                                } else {
                                    Some(id)
                                },
                            },
                        ] + self.post_process_events()
                    } else {
                        Seq::<GenericEvent<PacketIdType>>::empty()
                    })
                }
            })
    }

    /// Sends a v5.0 PUBLISH: refused when larger than the peer accepts. QoS 0
    /// needs a connected state. For QoS 1 and 2 the identifier must be in
    /// use; the packet is stored (with DUP set, and with the topic its alias
    /// stands for) when `stores_publish`, else its identifier is released
    /// should the send fail; the identifier then waits for its PUBACK or
    /// PUBREC. A packet without a topic name needs a registered alias; a
    /// TopicAlias property beside a topic name registers it, when in range;
    /// the automatic topic aliases apply when connected. For QoS 1 and 2 the
    /// peer's receive maximum is enforced. The packet is sent only when
    /// connected.
    #[verifier::rlimit(100)]
    #[verifier::spinoff_prover]
    fn process_send_v5_0_publish(&mut self, packet: v5_0::publish::GenericPublish<PacketIdType>) -> (r: Vec<GenericEvent<PacketIdType>>)
        ensures
            final(self).wf() == old(self).wf(),
            final(self).spec_status() == old(self).spec_status(),
            GenericPacket::V5_0Publish(packet).spec_size() > old(self).spec_maximum_packet_size_send() ==> r@ == seq![
                GenericEvent::<PacketIdType>::NotifyError(MqttError::PacketTooLarge),
            ] && *final(self) == *old(self),
            GenericPacket::V5_0Publish(packet).spec_size() <= old(self).spec_maximum_packet_size_send() && header_qos(
                packet.spec_fixed_header(),
            ) == 0 && old(self).spec_status() != ConnectionStatus::Connected ==> r@ == seq![
                GenericEvent::<PacketIdType>::NotifyError(MqttError::PacketNotAllowedToSend),
            ] && *final(self) == *old(self),
            GenericPacket::V5_0Publish(packet).spec_size() <= old(self).spec_maximum_packet_size_send() && header_qos(
                packet.spec_fixed_header(),
            ) != 0 ==> (old(self).publish_refused(packet.spec_packet_id().unwrap()) matches Some(ev) ==> r@ == ev
                && final(self).spec_store() == old(self).spec_store() && final(self).spec_pid_used() == (if old(
                self,
            ).spec_status() != ConnectionStatus::Connected {
                old(self).spec_pid_used().remove(packet.spec_packet_id().unwrap().spec_value() as u32)
            } else {
                old(self).spec_pid_used()
            })),
            GenericPacket::V5_0Publish(packet).spec_size() <= old(self).spec_maximum_packet_size_send() && old(
                self,
            ).publish_plain(packet) && header_qos(packet.spec_fixed_header()) == 0 && old(self).spec_status()
                == ConnectionStatus::Connected ==> r@ == seq![
                GenericEvent::RequestSendPacket {
                    packet: GenericPacket::V5_0Publish(packet),
                    release_packet_id_if_send_error: None,
                },
            ] + old(self).post_process_events() && *final(self) == old(self).after_post_process(),
            GenericPacket::V5_0Publish(packet).spec_size() <= old(self).spec_maximum_packet_size_send() && old(
                self,
            ).publish_plain(packet) && header_qos(packet.spec_fixed_header()) != 0 && old(self).publish_refused(
                packet.spec_packet_id().unwrap(),
            ) is None ==> {
                let id = packet.spec_packet_id().unwrap();
                let v = id.spec_value() as u32;
                let key = (
                    if header_qos(packet.spec_fixed_header()) == 1 {
                        ResponsePacket::V5_0Puback
                    } else {
                        ResponsePacket::V5_0Pubrec
                    },
                    id.spec_value(),
                );
                &&& final(self).spec_store() == (if old(self).stores_publish() && !old(self).spec_store().contains(key) {
                    old(self).spec_store().push(key)
                } else {
                    old(self).spec_store()
                })
                &&& header_qos(packet.spec_fixed_header()) == 1 ==> final(self).spec_pid_puback()
                    == old(self).spec_pid_puback().insert(v)
                &&& header_qos(packet.spec_fixed_header()) != 1 ==> final(self).spec_pid_pubrec()
                    == old(self).spec_pid_pubrec().insert(v)
                &&& old(self).receive_maximum_reached() ==> r@ == seq![
                    GenericEvent::<PacketIdType>::NotifyError(MqttError::ReceiveMaximumExceeded),
                    GenericEvent::<PacketIdType>::NotifyPacketIdReleased(id),
                ] && final(self).spec_pid_used() == old(self).spec_pid_used().remove(v)
                    && final(self).spec_publish_send_count() == old(self).spec_publish_send_count()
                &&& !old(self).receive_maximum_reached() ==> {
                    &&& final(self).spec_pid_used() == old(self).spec_pid_used()
                    &&& final(self).spec_publish_send_count() == (if old(self).spec_publish_send_max() is Some {
                        (old(self).spec_publish_send_count() + 1) as u16
                    } else {
                        old(self).spec_publish_send_count()
                    })
                    &&& r@ == (if old(self).spec_status() == ConnectionStatus::Connected {
                        seq![
                            GenericEvent::RequestSendPacket {
                                packet: GenericPacket::V5_0Publish(packet),
                                release_packet_id_if_send_error: if old(self).stores_publish() {
                                    None
                                } else {
                                    Some(id)
                                },
                            },
                        ] + old(self).post_process_events()
                    } else {
                        Seq::<GenericEvent<PacketIdType>>::empty()
                    })
                }
            },
            old(self).v5_publish_unstored(packet) ==> old(self).v5_publish_alias_sent(*final(self), packet, r@),
    {
        let mut events: Vec<GenericEvent<PacketIdType>> = Vec::new();
        if !self.validate_maximum_packet_size_send(packet.size()) {
            events.push(GenericEvent::NotifyError(MqttError::PacketTooLarge));
            return events;
        }
        let mut release_packet_id_if_send_error: Option<PacketIdType> = None;
        let mut topic_alias_validated = false;
        let qos = packet.qos().to_u8();
        let packet_id_opt = packet.packet_id();
        let ta_opt = get_topic_alias_from_props(packet.props());
        if qos != 0 {
            let packet_id = packet_id_opt.unwrap();
            if self.status != ConnectionStatus::Connected && !self.need_store && !self.offline_publish {
                events.push(GenericEvent::NotifyError(MqttError::PacketNotAllowedToSend));
                self.release_if_used(packet_id, &mut events);
                return events;
            }
            if !self.pid_man.is_used_id(packet_id) {
                events.push(GenericEvent::NotifyError(MqttError::PacketIdentifierInvalid));
                return events;
            }
            if self.need_store && (self.status != ConnectionStatus::Disconnected || self.offline_publish) {
                if !self.store_v5_publish(&packet, packet_id, ta_opt, &mut events) {
                    return events;
                }
                if packet.topic_name().is_empty() {
                    topic_alias_validated = true;
                }
            } else {
                release_packet_id_if_send_error = Some(packet_id);
            }
            if qos == 2 {
                self.pid_pubrec.insert(packet_id.value());
            } else {
                self.pid_puback.insert(packet_id.value());
            }
        } else if self.status != ConnectionStatus::Connected {
            events.push(GenericEvent::NotifyError(MqttError::PacketNotAllowedToSend));
            return events;
        }
        let ghost mid = *self;
        let ghost gp = packet;
        let ghost ev_mid = events@;
        self.send_v5_publish_tail(packet, qos, packet_id_opt, ta_opt, topic_alias_validated, release_packet_id_if_send_error, &mut events);
        proof {
            if old(self).v5_publish_unstored(gp) {
                assert(ev_mid.len() == 0);
                assert(events@.skip(0) =~= events@);
                Self::lemma_tail_outcome_transfer(*old(self), mid, *self, gp, release_packet_id_if_send_error, events@);
            }
        }
        events
    }


    /// What sending a control packet other than CONNACK does (each case is
    /// the outcome of the packet type's own handling).
    pub open spec fn control_send_outcome(
        self,
        after: Self,
        p: ControlPacket<PacketIdType>,
        r: Seq<GenericEvent<PacketIdType>>,
    ) -> bool {
        let t = p.spec_packet_type();
        let v5 = p.spec_v5();
        let gp = GenericPacket::<PacketIdType>::Control(p);
        if t == 4 || t == 5 || t == 7 {
            if v5 {
                self.ack_send_outcome(
                    after,
                    p,
                    p.spec_packet_id().unwrap().spec_value() as u32,
                    t == 5 && (p.spec_reason_code() matches Some(rc) && rc >= 0x80),
                    r,
                )
            } else {
                self.simple_send_outcome(after, gp, false, r)
            }
        } else if t == 6 {
            self.pubrel_send_outcome(after, p, v5, r)
        } else if t == 8 || t == 10 {
            self.sub_send_outcome(after, p, v5, t == 8, r)
        } else if t == 9 || t == 11 || t == 13 {
            self.simple_send_outcome(after, gp, v5, r)
        } else if t == 12 {
            self.pingreq_send_outcome(after, p, v5, r)
        } else if t == 14 {
            self.disconnect_send_outcome(after, p, v5, r)
        } else if t == 15 {
            if gp.spec_size() > self.spec_maximum_packet_size_send() {
                r == seq![GenericEvent::<PacketIdType>::NotifyError(MqttError::PacketTooLarge)] && after == self
            } else if self.spec_status() == ConnectionStatus::Disconnected {
                r == seq![GenericEvent::<PacketIdType>::NotifyError(MqttError::PacketNotAllowedToSend)] && after == self
            } else {
                r == seq![
                    GenericEvent::RequestSendPacket { packet: gp, release_packet_id_if_send_error: None },
                ] + self.post_process_events() && after == self.after_post_process()
            }
        } else {
            false
        }
    }

    fn send_v3_1_1_publish(&mut self, packet: v3_1_1::publish::GenericPublish<PacketIdType>) -> (r: Vec<GenericEvent<PacketIdType>>)
        ensures
            old(self).v3_publish_send_outcome(*final(self), packet, r@),
    {
        self.process_send_v3_1_1_publish(packet)
    }

    fn send_v5_0_publish(&mut self, packet: v5_0::publish::GenericPublish<PacketIdType>) -> (r: Vec<GenericEvent<PacketIdType>>)
        ensures
            old(self).v5_publish_send_outcome(*final(self), packet, r@),
    {
        self.process_send_v5_0_publish(packet)
    }

    fn send_v5_0_connack(&mut self, packet: ControlPacket<PacketIdType>) -> (r: Vec<GenericEvent<PacketIdType>>)
        requires
            packet.spec_packet_type() == 2,
            packet.spec_v5(),
        ensures
            old(self).v5_connack_send_outcome(*final(self), packet, r@),
    {
        self.process_send_v5_0_connack(packet)
    }

    /// What sending `packet` does (see `send`): a packet of another protocol
    /// version is refused, so is one that the role may not send; otherwise
    /// the outcome of the packet type's own handling.
    pub open spec fn send_outcome(
        self,
        after: Self,
        packet: GenericPacket<PacketIdType>,
        r: Seq<GenericEvent<PacketIdType>>,
    ) -> bool {
        &&& (after.wf() == self.wf())
        &&& (packet.spec_protocol_version() != self.spec_protocol_version() ==> r == seq![
                GenericEvent::<PacketIdType>::NotifyError(MqttError::VersionMismatch),
            ] && after == self)
        &&& (packet.spec_protocol_version() == self.spec_protocol_version() && !role_allows(Role::spec_kind(), packet)
                ==> r == seq![GenericEvent::<PacketIdType>::NotifyError(MqttError::PacketNotAllowedToSend)]
                && after == self)
        &&& (packet.spec_protocol_version() == self.spec_protocol_version() && role_allows(Role::spec_kind(), packet)
                ==> match packet {
                GenericPacket::Control(p) => if p.spec_packet_type() != 2 {
                    self.control_send_outcome(after, p, r)
                } else if p.spec_v5() {
                    self.v5_connack_send_outcome(after, p, r)
                } else {
                    self.v3_connack_send_outcome(after, p, r)
                },
                GenericPacket::V3_1_1Connect(c) => self.v3_connect_send_outcome(after, c, r),
                GenericPacket::V5_0Connect(c) => self.v5_connect_send_outcome(after, c, r),
                GenericPacket::V3_1_1Publish(q) => self.v3_publish_send_outcome(after, q, r),
                GenericPacket::V5_0Publish(q) => self.v5_publish_send_outcome(after, q, r),
            })
    }

    /// Sends a packet: checks that it has the connection's protocol version
    /// and that the role may send it, then hands it to the handling of its
    /// type. Gives the events for the caller to act on.
    #[verifier::rlimit(50)]
    pub fn send(&mut self, packet: GenericPacket<PacketIdType>) -> (r: Vec<GenericEvent<PacketIdType>>)
        ensures
            old(self).send_outcome(*final(self), packet, r@),
    {
        let kind = Role::kind();
        let client = kind == RoleKind::Client || kind == RoleKind::Any;
        let server = kind == RoleKind::Server || kind == RoleKind::Any;
        if self.protocol_version != packet.protocol_version() {
            let mut events: Vec<GenericEvent<PacketIdType>> = Vec::new();
            events.push(GenericEvent::NotifyError(MqttError::VersionMismatch));
            return events;
        }
        let mut refused: Vec<GenericEvent<PacketIdType>> = Vec::new();
        refused.push(GenericEvent::NotifyError(MqttError::PacketNotAllowedToSend));
        match packet {
            GenericPacket::V3_1_1Connect(p) => if client {
                self.process_send_v3_1_1_connect(p)
            } else {
                refused
            },
            GenericPacket::V5_0Connect(p) => if client {
                self.process_send_v5_0_connect(p)
            } else {
                refused
            },
            GenericPacket::V3_1_1Publish(p) => self.send_v3_1_1_publish(p),
            GenericPacket::V5_0Publish(p) => self.send_v5_0_publish(p),
            GenericPacket::Control(p) => {
                let t = p.packet_type();
                let v5 = p.is_v5();
                if t == 2 || t == 9 || t == 11 || t == 13 {
                    if !server {
                        return refused;
                    }
                } else if t == 8 || t == 10 || t == 12 || (t == 14 && !v5) {
                    if !client {
                        return refused;
                    }
                }
                if t == 2 {
                    if v5 {
                        self.send_v5_0_connack(p)
                    } else {
                        self.process_send_v3_1_1_connack(p)
                    }
                } else if t == 4 {
                    if v5 { self.process_send_v5_0_puback(p) } else { self.process_send_v3_1_1_puback(p) }
                } else if t == 5 {
                    if v5 { self.process_send_v5_0_pubrec(p) } else { self.process_send_v3_1_1_pubrec(p) }
                } else if t == 6 {
                    if v5 { self.process_send_v5_0_pubrel(p) } else { self.process_send_v3_1_1_pubrel(p) }
                } else if t == 7 {
                    if v5 { self.process_send_v5_0_pubcomp(p) } else { self.process_send_v3_1_1_pubcomp(p) }
                } else if t == 8 {
                    if v5 { self.process_send_v5_0_subscribe(p) } else { self.process_send_v3_1_1_subscribe(p) }
                } else if t == 9 {
                    if v5 { self.process_send_v5_0_suback(p) } else { self.process_send_v3_1_1_suback(p) }
                } else if t == 10 {
                    if v5 { self.process_send_v5_0_unsubscribe(p) } else { self.process_send_v3_1_1_unsubscribe(p) }
                } else if t == 11 {
                    if v5 { self.process_send_v5_0_unsuback(p) } else { self.process_send_v3_1_1_unsuback(p) }
                } else if t == 12 {
                    if v5 { self.process_send_v5_0_pingreq(p) } else { self.process_send_v3_1_1_pingreq(p) }
                } else if t == 13 {
                    if v5 { self.process_send_v5_0_pingresp(p) } else { self.process_send_v3_1_1_pingresp(p) }
                } else if t == 14 {
                    if v5 { self.process_send_v5_0_disconnect(p) } else { self.process_send_v3_1_1_disconnect(p) }
                } else if t == 15 {
                    self.process_send_v5_0_auth(p)
                } else {
                    refused
                }
            },
        }
    }


    /// The connection with the flag of timer `kind` cleared.
    pub closed spec fn with_timer_cleared(self, kind: TimerKind) -> Self {
        match kind {
            TimerKind::PingreqSend => GenericConnection { pingreq_send_set: false, ..self },
            TimerKind::PingreqRecv => GenericConnection { pingreq_recv_set: false, ..self },
            TimerKind::PingrespRecv => GenericConnection { pingresp_recv_set: false, ..self },
        }
    }

    /// Whether `other` agrees with this connection in everything its
    /// accessors show, the timer flags aside.
    pub open spec fn same_but_timers(self, other: Self) -> bool {
        &&& other.wf() == self.wf()
        &&& other.spec_status() == self.spec_status()
        &&& other.spec_protocol_version() == self.spec_protocol_version()
        &&& other.spec_pid_used() == self.spec_pid_used()
        &&& other.spec_pid_suback() == self.spec_pid_suback()
        &&& other.spec_pid_unsuback() == self.spec_pid_unsuback()
        &&& other.spec_pid_puback() == self.spec_pid_puback()
        &&& other.spec_pid_pubrec() == self.spec_pid_pubrec()
        &&& other.spec_pid_pubcomp() == self.spec_pid_pubcomp()
        &&& other.spec_qos2_publish_handled() == self.spec_qos2_publish_handled()
        &&& other.spec_publish_recv() == self.spec_publish_recv()
        &&& other.spec_need_store() == self.spec_need_store()
        &&& other.spec_offline_publish() == self.spec_offline_publish()
        &&& other.spec_auto_pub_response() == self.spec_auto_pub_response()
        &&& other.spec_auto_ping_response() == self.spec_auto_ping_response()
        &&& other.spec_auto_map_topic_alias_send() == self.spec_auto_map_topic_alias_send()
        &&& other.spec_auto_replace_topic_alias_send() == self.spec_auto_replace_topic_alias_send()
        &&& other.spec_store() == self.spec_store()
        &&& other.spec_store_packets() == self.spec_store_packets()
        &&& other.spec_publish_send_max() == self.spec_publish_send_max()
        &&& other.spec_publish_recv_max() == self.spec_publish_recv_max()
        &&& other.spec_publish_send_count() == self.spec_publish_send_count()
        &&& other.spec_maximum_packet_size_send() == self.spec_maximum_packet_size_send()
        &&& other.spec_maximum_packet_size_recv() == self.spec_maximum_packet_size_recv()
        &&& other.spec_topic_alias_send() == self.spec_topic_alias_send()
        &&& other.spec_has_topic_alias_recv() == self.spec_has_topic_alias_recv()
        &&& other.spec_is_client() == self.spec_is_client()
        &&& other.spec_pingreq_user_send_interval_ms() == self.spec_pingreq_user_send_interval_ms()
        &&& other.spec_pingreq_keep_alive_ms() == self.spec_pingreq_keep_alive_ms()
        &&& other.spec_pingreq_server_keep_alive_ms() == self.spec_pingreq_server_keep_alive_ms()
        &&& other.spec_pingreq_recv_timeout_ms() == self.spec_pingreq_recv_timeout_ms()
        &&& other.spec_pingresp_recv_timeout_ms() == self.spec_pingresp_recv_timeout_ms()
        &&& other.spec_topic_alias_recv() == self.spec_topic_alias_recv()
        &&& other.spec_received() == self.spec_received()
    }

    /// Clearing the flag of timer `kind` changes that flag and nothing else.
    pub proof fn lemma_with_timer_cleared(self, kind: TimerKind)
        ensures
            self.same_but_timers(self.with_timer_cleared(kind)),
            self.with_timer_cleared(kind).spec_timer_flags() == (match kind {
                TimerKind::PingreqSend => (false, self.spec_timer_flags().1, self.spec_timer_flags().2),
                TimerKind::PingreqRecv => (self.spec_timer_flags().0, false, self.spec_timer_flags().2),
                TimerKind::PingrespRecv => (self.spec_timer_flags().0, self.spec_timer_flags().1, false),
            }),
    {
    }

    /// A PINGREQ of the connection's version, or a v5.0 DISCONNECT with
    /// reason code 0x8D (Keep Alive timeout), as the timers send them.
    pub open spec fn is_timer_packet(p: ControlPacket<PacketIdType>, packet_type: u8, version: Version) -> bool {
        &&& p.spec_packet_type() == packet_type
        &&& p.spec_v5() == (version == Version::V5_0)
        &&& p.spec_packet_id() is None
        &&& p.spec_ack_flags() is None
        &&& p.spec_reason_code() == (if packet_type == 14 { Some(0x8Du8) } else { None })
        &&& p.spec_props() is None
        &&& p.spec_payload().len() == 0
    }

    /// Tells the connection that timer `kind` fired. The PINGREQ send timer
    /// sends a PINGREQ when connected. When the PINGREQ or PINGRESP receive
    /// timer fires, a v3.1.1 connection asks to be closed and a connected
    /// v5.0 one sends DISCONNECT with reason code 0x8D (Keep Alive timeout).
    pub fn notify_timer_fired(&mut self, kind: TimerKind) -> (r: Vec<GenericEvent<PacketIdType>>)
        requires
            old(self).spec_protocol_version() == Version::Undetermined ==> kind == TimerKind::PingreqSend && old(self).spec_status() != ConnectionStatus::Connected,
        ensures
            final(self).wf() == old(self).wf(),
            kind == TimerKind::PingreqSend && old(self).spec_status() != ConnectionStatus::Connected ==> r@.len() == 0
                && *final(self) == old(self).with_timer_cleared(kind),
            kind == TimerKind::PingreqSend && old(self).spec_status() == ConnectionStatus::Connected ==> exists|
                p: ControlPacket<PacketIdType>,
            |
                #![trigger Self::is_timer_packet(p, 12u8, old(self).spec_protocol_version())]
                Self::is_timer_packet(p, 12u8, old(self).spec_protocol_version()) && old(self).with_timer_cleared(kind).pingreq_send_outcome(
                    *final(self),
                    p,
                    old(self).spec_protocol_version() == Version::V5_0,
                    r@,
                ),
            kind != TimerKind::PingreqSend && old(self).spec_protocol_version() != Version::V5_0 ==> r@ == seq![
                GenericEvent::<PacketIdType>::RequestClose,
            ] && *final(self) == old(self).with_timer_cleared(kind),
            kind != TimerKind::PingreqSend && old(self).spec_protocol_version() == Version::V5_0 && old(self).spec_status()
                != ConnectionStatus::Connected ==> r@.len() == 0 && *final(self) == old(self).with_timer_cleared(kind),
            kind != TimerKind::PingreqSend && old(self).spec_protocol_version() == Version::V5_0 && old(self).spec_status()
                == ConnectionStatus::Connected ==> exists|p: ControlPacket<PacketIdType>|
                #![trigger Self::is_timer_packet(p, 14u8, Version::V5_0)]
                Self::is_timer_packet(p, 14u8, Version::V5_0) && old(self).with_timer_cleared(kind).disconnect_send_outcome(
                    *final(self),
                    p,
                    true,
                    r@,
                ),
    {
        let mut events: Vec<GenericEvent<PacketIdType>> = Vec::new();
        let v5 = match self.protocol_version {
            Version::V5_0 => true,
            _ => false,
        };
        match kind {
            TimerKind::PingreqSend => {
                self.pingreq_send_set = false;
                if self.status == ConnectionStatus::Connected {
                    let empty: Vec<u8> = Vec::new();
                    match ControlPacket::new(v5, 12u8, None, None, None, None, empty) {
                        Ok(p) => {
                            let ghost gp = p;
                            let ghost ver = self.protocol_version;
                            assert(Self::is_timer_packet(gp, 12u8, ver));
                            events = if v5 {
                                self.process_send_v5_0_pingreq(p)
                            } else {
                                self.process_send_v3_1_1_pingreq(p)
                            };
                        },
                        Err(_) => {
                            assert(false);
                        },
                    }
                }
            },
            TimerKind::PingreqRecv | TimerKind::PingrespRecv => {
                if kind == TimerKind::PingreqRecv {
                    self.pingreq_recv_set = false;
                } else {
                    self.pingresp_recv_set = false;
                }
                if !v5 {
                    events.push(GenericEvent::RequestClose);
                } else if self.status == ConnectionStatus::Connected {
                    let empty: Vec<u8> = Vec::new();
                    match ControlPacket::new(true, 14u8, None, None, Some(0x8Du8), None, empty) {
                        Ok(p) => {
                            let ghost gp = p;
                            events = self.process_send_v5_0_disconnect(p);
                            assert(Self::is_timer_packet(gp, 14u8, Version::V5_0));
                        },
                        Err(_) => {
                            assert(false);
                        },
                    }
                }
            },
        }
        events
    }


    /// A v5.0 DISCONNECT with reason code `rc` and nothing else, as the
    /// connection builds it to report an error.
    pub open spec fn is_reason_disconnect(p: ControlPacket<PacketIdType>, rc: u8) -> bool {
        &&& p.spec_packet_type() == 14
        &&& p.spec_v5()
        &&& p.spec_packet_id() is None
        &&& p.spec_ack_flags() is None
        &&& p.spec_reason_code() == Some(rc)
        &&& p.spec_props() is None
        &&& p.spec_payload().len() == 0
    }

    /// What reporting error `e` on a v5.0 connection does: a DISCONNECT with
    /// the error's reason code is sent (when connected, see
    /// `disconnect_send_outcome`), then the error is told.
    pub open spec fn v5_error_outcome(self, after: Self, e: MqttError, r: Seq<GenericEvent<PacketIdType>>) -> bool {
        &&& r.len() >= 1
        &&& r.last() == GenericEvent::<PacketIdType>::NotifyError(e)
        &&& exists|p: ControlPacket<PacketIdType>|
            #![trigger Self::is_reason_disconnect(p, e.spec_disconnect_reason().spec_to_u8())]
            Self::is_reason_disconnect(p, e.spec_disconnect_reason().spec_to_u8()) && self.disconnect_send_outcome(
                after,
                p,
                true,
                r.drop_last(),
            )
    }

    /// Reports error `e` on a v3.1.1 connection: asks to close, then tells
    /// the error.
    fn handle_v3_1_1_error(e: MqttError, events: &mut Vec<GenericEvent<PacketIdType>>)
        ensures
            final(events)@ == old(events)@ + seq![
                GenericEvent::<PacketIdType>::RequestClose,
                GenericEvent::<PacketIdType>::NotifyError(e),
            ],
    {
        events.push(GenericEvent::RequestClose);
        events.push(GenericEvent::NotifyError(e));
    }

    /// Reports error `e` on a v5.0 connection: sends a DISCONNECT with the
    /// error's reason code, then tells the error.
    fn handle_v5_0_error(&mut self, e: MqttError, events: &mut Vec<GenericEvent<PacketIdType>>)
        ensures
            final(self).spec_protocol_version() == old(self).spec_protocol_version(),
            final(self).wf() == old(self).wf(),
            final(events)@.len() >= old(events)@.len(),
            final(events)@.take(old(events)@.len() as int) == old(events)@,
            old(self).v5_error_outcome(*final(self), e, final(events)@.skip(old(events)@.len() as int)),
    {
        let ghost e0 = events@;
        let rc = e.disconnect_reason().to_u8();
        let empty: Vec<u8> = Vec::new();
        let mut out: Vec<GenericEvent<PacketIdType>> = Vec::new();
        match ControlPacket::new(true, 14u8, None, None, Some(rc), None, empty) {
            Ok(p) => {
                let ghost gp = p;
                assert(Self::is_reason_disconnect(gp, e.spec_disconnect_reason().spec_to_u8()));
                out = self.process_send_v5_0_disconnect(p);
            },
            Err(_) => {
                assert(false);
            },
        }
        let ghost d = out@;
        out.push(GenericEvent::NotifyError(e));
        let ghost o = out@;
        events.append(&mut out);
        proof {
            assert(events@.take(e0.len() as int) =~= e0);
            assert(events@.skip(e0.len() as int) =~= o);
            assert(o.drop_last() =~= d);
        }
    }

    /// Reports error `e` in the way of the connection's version.
    fn handle_error(&mut self, v5: bool, e: MqttError, events: &mut Vec<GenericEvent<PacketIdType>>)
        ensures
            final(self).wf() == old(self).wf(),
            !v5 ==> final(events)@ == old(events)@ + seq![
                GenericEvent::<PacketIdType>::RequestClose,
                GenericEvent::<PacketIdType>::NotifyError(e),
            ] && *final(self) == *old(self),
            v5 ==> final(events)@.len() >= old(events)@.len() && final(events)@.take(old(events)@.len() as int) == old(
                events,
            )@ && old(self).v5_error_outcome(*final(self), e, final(events)@.skip(old(events)@.len() as int)),
    {
        if v5 {
            self.handle_v5_0_error(e, events);
        } else {
            Self::handle_v3_1_1_error(e, events);
        }
    }

    /// The outcome of reporting error `e` from an empty list of events.
    pub open spec fn error_outcome(self, after: Self, v5: bool, e: MqttError, r: Seq<GenericEvent<PacketIdType>>) -> bool {
        if v5 {
            self.v5_error_outcome(after, e, r)
        } else {
            r == seq![GenericEvent::<PacketIdType>::RequestClose, GenericEvent::<PacketIdType>::NotifyError(e)]
                && after == self
        }
    }

    /// The identifiers waiting for a response of packet type `t`: PUBACK
    /// (4), PUBREC (5), PUBCOMP (7), SUBACK (9) or UNSUBACK (11).
    pub open spec fn awaiting(self, t: u8) -> Set<u32> {
        if t == 4 {
            self.spec_pid_puback()
        } else if t == 5 {
            self.spec_pid_pubrec()
        } else if t == 7 {
            self.spec_pid_pubcomp()
        } else if t == 9 {
            self.spec_pid_suback()
        } else {
            self.spec_pid_unsuback()
        }
    }

    /// The store key that a response of type `t` completes.
    pub open spec fn response_of(v5: bool, t: u8) -> ResponsePacket {
        if t == 4 {
            if v5 { ResponsePacket::V5_0Puback } else { ResponsePacket::V3_1_1Puback }
        } else if t == 5 {
            if v5 { ResponsePacket::V5_0Pubrec } else { ResponsePacket::V3_1_1Pubrec }
        } else {
            if v5 { ResponsePacket::V5_0Pubcomp } else { ResponsePacket::V3_1_1Pubcomp }
        }
    }

    /// The packet identifier that the body `d` of a received packet starts with.
    pub open spec fn recv_id(d: Seq<u8>) -> u32 {
        pid_value(d.subrange(0, PacketIdType::spec_width() as int)) as u32
    }

    /// Whether `id` waits for a response of packet type `t`.
    fn is_awaiting(&self, t: u8, id: u32) -> (r: bool)
        ensures
            r == self.awaiting(t).contains(id),
    {
        if t == 4 {
            self.pid_puback.contains(id)
        } else if t == 5 {
            self.pid_pubrec.contains(id)
        } else if t == 7 {
            self.pid_pubcomp.contains(id)
        } else if t == 9 {
            self.pid_suback.contains(id)
        } else {
            self.pid_unsuback.contains(id)
        }
    }

    /// Removes `id` from the identifiers waiting for a response of type `t`;
    /// whether it was there.
    fn take_awaiting(&mut self, t: u8, id: u32) -> (r: bool)
        requires
            t == 4 || t == 5 || t == 7 || t == 9 || t == 11,
        ensures
            r == old(self).awaiting(t).contains(id),
            final(self).awaiting(t) == old(self).awaiting(t).remove(id),
            forall|u: u8| u != t && (u == 4 || u == 5 || u == 7 || u == 9 || u == 11) ==> #[trigger] final(self).awaiting(u)
                == old(self).awaiting(u),
            *final(self) == (GenericConnection {
                pid_puback: final(self).pid_puback,
                pid_pubrec: final(self).pid_pubrec,
                pid_pubcomp: final(self).pid_pubcomp,
                pid_suback: final(self).pid_suback,
                pid_unsuback: final(self).pid_unsuback,
                ..*old(self)
            }),
    {
        if t == 4 {
            self.pid_puback.remove(id)
        } else if t == 5 {
            self.pid_pubrec.remove(id)
        } else if t == 7 {
            self.pid_pubcomp.remove(id)
        } else if t == 9 {
            self.pid_suback.remove(id)
        } else {
            self.pid_unsuback.remove(id)
        }
    }

    /// One PUBLISH fewer waits for its acknowledgement, when the peer set a
    /// receive maximum.
    fn count_publish_done(&mut self)
        ensures
            *final(self) == (GenericConnection {
                publish_send_count: if old(self).publish_send_max is Some && old(self).publish_send_count > 0 {
                    (old(self).publish_send_count - 1) as u16
                } else {
                    old(self).publish_send_count
                },
                ..*old(self)
            }),
    {
        if self.publish_send_max.is_some() && self.publish_send_count > 0 {
            self.publish_send_count = self.publish_send_count - 1;
        }
    }

    /// The handling of a well-formed PUBACK, PUBCOMP, SUBACK or UNSUBACK
    /// (see `recv_response`).
    fn complete_response(&mut self, packet: ControlPacket<PacketIdType>, v5: bool, t: u8) -> (r: Vec<GenericEvent<PacketIdType>>)
        requires
            t == 4 || t == 7 || t == 9 || t == 11,
            packet.spec_packet_type() == t,
            packet.spec_packet_id() is Some,
        ensures
            final(self).wf() == old(self).wf(),
            ({
                let v = packet.spec_packet_id().unwrap().spec_value() as u32;
                if old(self).awaiting(t).contains(v) {
                    &&& final(self).awaiting(t) == old(self).awaiting(t).remove(v)
                    &&& final(self).spec_pid_used() == old(self).spec_pid_used().remove(v)
                    &&& (t == 4 || t == 7 ==> !final(self).spec_store().contains((Self::response_of(v5, t), v as nat)))
                    &&& final(self).spec_status() == old(self).spec_status()
                    &&& r@.len() >= 1
                    &&& r@.last() == GenericEvent::NotifyPacketReceived(GenericPacket::Control(packet))
                } else {
                    old(self).error_outcome(*final(self), v5, MqttError::ProtocolError, r@)
                }
            }),
    {
        let mut events: Vec<GenericEvent<PacketIdType>> = Vec::new();
        let packet_id = packet.packet_id().unwrap();
        let v = packet_id.value();
        if !self.is_awaiting(t, v) {
            self.handle_error(v5, MqttError::ProtocolError, &mut events);
            proof { assert(events@.skip(0) =~= events@); }
            return events;
        }
        {
            self.take_awaiting(t, v);
            if t == 4 || t == 7 {
                let resp = if t == 4 {
                    if v5 { ResponsePacket::V5_0Puback } else { ResponsePacket::V3_1_1Puback }
                } else {
                    if v5 { ResponsePacket::V5_0Pubcomp } else { ResponsePacket::V3_1_1Pubcomp }
                };
                self.store.erase(resp, v);
            }
            self.release_if_used(packet_id, &mut events);
            if v5 && (t == 4 || t == 7) {
                self.count_publish_done();
            }
            let mut refresh = self.refresh_pingreq_recv();
            events.append(&mut refresh);
            events.push(GenericEvent::NotifyPacketReceived(GenericPacket::Control(packet)));
        }
        events
    }

    /// What receiving a PUBACK, PUBCOMP, SUBACK or UNSUBACK does (see `recv_response`).
    pub open spec fn response_recv_outcome(self, after: Self, raw: RawPacket, v5: bool, t: u8, r: Seq<GenericEvent<PacketIdType>>) -> bool {
        &&& (after.wf() == self.wf())
        &&& (control_result::<PacketIdType>(v5, t, raw.spec_data()) matches Err(e) ==> self.error_outcome(
                after,
                v5,
                e,
                r,
            ))
        &&& (control_result::<PacketIdType>(v5, t, raw.spec_data()) is Ok ==> {
                let v = Self::recv_id(raw.spec_data());
                if self.awaiting(t).contains(v) {
                    &&& after.awaiting(t) == self.awaiting(t).remove(v)
                    &&& after.spec_pid_used() == self.spec_pid_used().remove(v)
                    &&& (t == 4 || t == 7 ==> !after.spec_store().contains((Self::response_of(v5, t), v as nat)))
                    &&& after.spec_status() == self.spec_status()
                    &&& r.len() >= 1
                    &&& r.last() matches GenericEvent::NotifyPacketReceived(GenericPacket::Control(p)) && p.spec_packet_type() == t
                } else {
                    self.error_outcome(after, v5, MqttError::ProtocolError, r)
                }
            })
    }

    /// Receives a PUBACK (4), PUBCOMP (7), SUBACK (9) or UNSUBACK (11): the
    /// identifier must be waiting for it, and is then released (with the
    /// stored packet, for PUBACK and PUBCOMP, and one PUBLISH fewer counted
    /// towards the peer's receive maximum in v5.0); otherwise, or when the
    /// packet is malformed, the error is reported.
    fn recv_response(&mut self, raw: &RawPacket, v5: bool, t: u8) -> (r: Vec<GenericEvent<PacketIdType>>)
        requires
            t == 4 || t == 7 || t == 9 || t == 11,
            raw.spec_data().len() <= crate::packet::variable_byte_integer::VBI_MAX,
        ensures
            old(self).response_recv_outcome(*final(self), *raw, v5, t, r@),
    {
        let mut events: Vec<GenericEvent<PacketIdType>> = Vec::new();
        match ControlPacket::<PacketIdType>::parse(v5, t, raw.data_as_slice()) {
            Ok((packet, _)) => {
                let packet_id = packet.packet_id().unwrap();
                proof {
                    lemma_pid_roundtrip(packet_id);
                    assert(raw.spec_data().subrange(0, PacketIdType::spec_width() as int) == pid_bytes(
                        packet_id.spec_value(),
                        PacketIdType::spec_width(),
                    ));
                    PacketIdType::lemma_packet_id(packet_id);
                }
                events = self.complete_response(packet, v5, t);
            },
            Err(e) => {
                self.handle_error(v5, e, &mut events);
                proof { assert(events@.skip(0) =~= events@); }
            },
        }
        events
    }


    /// The event that restarting the PINGREQ receive timer gives.
    pub open spec fn refresh_events(self) -> Seq<GenericEvent<PacketIdType>> {
        if self.spec_pingreq_recv_timeout_ms() != 0 {
            seq![
                GenericEvent::<PacketIdType>::RequestTimerReset {
                    kind: TimerKind::PingreqRecv,
                    duration_ms: self.spec_pingreq_recv_timeout_ms(),
                },
            ]
        } else {
            Seq::<GenericEvent<PacketIdType>>::empty()
        }
    }

    /// The connection after the PINGREQ receive timer was restarted.
    pub closed spec fn after_refresh(self) -> Self {
        if self.pingreq_recv_timeout_ms != 0 {
            GenericConnection { pingreq_recv_set: true, ..self }
        } else {
            self
        }
    }

    /// Restarts the PINGREQ receive timer and tells that `packet` was received.
    fn notify_received(&mut self, packet: GenericPacket<PacketIdType>, events: &mut Vec<GenericEvent<PacketIdType>>)
        ensures
            final(events)@ == old(events)@ + old(self).refresh_events() + seq![
                GenericEvent::NotifyPacketReceived(packet),
            ],
            *final(self) == old(self).after_refresh(),
            final(self).wf() == old(self).wf(),
    {
        let mut refresh = self.refresh_pingreq_recv();
        events.append(&mut refresh);
        events.push(GenericEvent::NotifyPacketReceived(packet));
        proof {
            assert(events@ =~= old(events)@ + old(self).refresh_events() + seq![
                GenericEvent::NotifyPacketReceived(packet),
            ]);
        }
    }

    /// What receiving a SUBSCRIBE, UNSUBSCRIBE or AUTH does (see `recv_notify_only`).
    pub open spec fn notify_recv_outcome(self, after: Self, raw: RawPacket, v5: bool, t: u8, r: Seq<GenericEvent<PacketIdType>>) -> bool {
        &&& (after.wf() == self.wf())
        &&& (control_result::<PacketIdType>(v5, t, raw.spec_data()) matches Err(e) ==> self.error_outcome(
                after,
                v5,
                e,
                r,
            ))
        &&& (control_result::<PacketIdType>(v5, t, raw.spec_data()) is Ok ==> {
                &&& after == self.after_refresh()
                &&& r.len() >= 1
                &&& r.drop_last() == self.refresh_events()
                &&& r.last() matches GenericEvent::NotifyPacketReceived(GenericPacket::Control(p)) && p.spec_packet_type() == t
            })
    }

    /// Receives a SUBSCRIBE (8), UNSUBSCRIBE (10) or AUTH (15): it is told,
    /// unless malformed.
    fn recv_notify_only(&mut self, raw: &RawPacket, v5: bool, t: u8) -> (r: Vec<GenericEvent<PacketIdType>>)
        requires
            t == 8 || t == 10 || (v5 && t == 15),
            raw.spec_data().len() <= crate::packet::variable_byte_integer::VBI_MAX,
        ensures
            old(self).notify_recv_outcome(*final(self), *raw, v5, t, r@),
    {
        let mut events: Vec<GenericEvent<PacketIdType>> = Vec::new();
        match ControlPacket::<PacketIdType>::parse(v5, t, raw.data_as_slice()) {
            Ok((packet, _)) => {
                let ghost gp = packet;
                self.notify_received(GenericPacket::Control(packet), &mut events);
                proof {
                    assert(events@.drop_last() =~= old(self).refresh_events());
                }
            },
            Err(e) => {
                self.handle_error(v5, e, &mut events);
                proof { assert(events@.skip(0) =~= events@); }
            },
        }
        events
    }

    /// What receiving a PINGRESP does (see `recv_pingresp`).
    pub open spec fn pingresp_recv_outcome(self, after: Self, raw: RawPacket, v5: bool, r: Seq<GenericEvent<PacketIdType>>) -> bool {
        &&& (after.wf() == self.wf())
        &&& (control_result::<PacketIdType>(v5, 13, raw.spec_data()) matches Err(e) ==> self.error_outcome(
                after,
                v5,
                e,
                r,
            ))
        &&& (control_result::<PacketIdType>(v5, 13, raw.spec_data()) is Ok ==> {
                &&& after.spec_timer_flags() == (self.spec_timer_flags().0, self.spec_timer_flags().1, false)
                &&& after.spec_status() == self.spec_status()
                &&& r.len() >= 1
                &&& r.drop_last() == cancel_events::<PacketIdType>(false, false, self.spec_timer_flags().2)
                &&& r.last() matches GenericEvent::NotifyPacketReceived(GenericPacket::Control(p)) && p.spec_packet_type() == 13
            })
    }

    /// Receives a PINGRESP: stops the PINGRESP timer and tells the packet,
    /// unless malformed.
    fn recv_pingresp(&mut self, raw: &RawPacket, v5: bool) -> (r: Vec<GenericEvent<PacketIdType>>)
        requires
            raw.spec_data().len() <= crate::packet::variable_byte_integer::VBI_MAX,
        ensures
            old(self).pingresp_recv_outcome(*final(self), *raw, v5, r@),
    {
        let mut events: Vec<GenericEvent<PacketIdType>> = Vec::new();
        match ControlPacket::<PacketIdType>::parse(v5, 13u8, raw.data_as_slice()) {
            Ok((packet, _)) => {
                if self.pingresp_recv_set {
                    self.pingresp_recv_set = false;
                    events.push(GenericEvent::RequestTimerCancel(TimerKind::PingrespRecv));
                }
                let ghost pre = events@;
                events.push(GenericEvent::NotifyPacketReceived(GenericPacket::Control(packet)));
                proof {
                    assert(events@.drop_last() =~= pre);
                    assert(pre =~= cancel_events::<PacketIdType>(false, false, old(self).spec_timer_flags().2));
                }
            },
            Err(e) => {
                self.handle_error(v5, e, &mut events);
                proof { assert(events@.skip(0) =~= events@); }
            },
        }
        events
    }

    /// What receiving a DISCONNECT does (see `recv_disconnect`).
    pub open spec fn disconnect_recv_outcome(self, after: Self, raw: RawPacket, v5: bool, r: Seq<GenericEvent<PacketIdType>>) -> bool {
        &&& (after.wf() == self.wf())
        &&& (control_result::<PacketIdType>(v5, 14, raw.spec_data()) matches Err(e) ==> self.error_outcome(
                after,
                v5,
                e,
                r,
            ))
        &&& (control_result::<PacketIdType>(v5, 14, raw.spec_data()) is Ok ==> {
                &&& after.spec_timer_flags() == (false, false, false)
                &&& after.spec_status() == self.spec_status()
                &&& r.len() >= 1
                &&& r.drop_last() == cancel_events::<PacketIdType>(
                    self.spec_timer_flags().0,
                    self.spec_timer_flags().1,
                    self.spec_timer_flags().2,
                )
                &&& r.last() matches GenericEvent::NotifyPacketReceived(GenericPacket::Control(p)) && p.spec_packet_type() == 14
            })
    }

    /// Receives a DISCONNECT: stops the timers and tells the packet, unless
    /// malformed.
    fn recv_disconnect(&mut self, raw: &RawPacket, v5: bool) -> (r: Vec<GenericEvent<PacketIdType>>)
        requires
            raw.spec_data().len() <= crate::packet::variable_byte_integer::VBI_MAX,
        ensures
            old(self).disconnect_recv_outcome(*final(self), *raw, v5, r@),
    {
        let mut events: Vec<GenericEvent<PacketIdType>> = Vec::new();
        match ControlPacket::<PacketIdType>::parse(v5, 14u8, raw.data_as_slice()) {
            Ok((packet, _)) => {
                self.cancel_timers(&mut events);
                let ghost pre = events@;
                events.push(GenericEvent::NotifyPacketReceived(GenericPacket::Control(packet)));
                proof {
                    assert(events@.drop_last() =~= pre);
                    assert(pre =~= Seq::<GenericEvent<PacketIdType>>::empty() + cancel_events::<PacketIdType>(
                        old(self).spec_timer_flags().0,
                        old(self).spec_timer_flags().1,
                        old(self).spec_timer_flags().2,
                    ));
                }
            },
            Err(e) => {
                self.handle_error(v5, e, &mut events);
                proof { assert(events@.skip(0) =~= events@); }
            },
        }
        events
    }

    /// Whether a received PINGREQ is answered automatically: by a server
    /// connection with automatic PINGRESP, when connected.
    pub open spec fn answers_pingreq(self) -> bool {
        &&& (Role::spec_kind() == RoleKind::Server || Role::spec_kind() == RoleKind::Any)
        &&& !self.spec_is_client()
        &&& self.spec_auto_ping_response()
        &&& self.spec_status() == ConnectionStatus::Connected
    }

    /// What receiving a PINGREQ does (see `recv_pingreq`).
    pub open spec fn pingreq_recv_outcome(self, after: Self, raw: RawPacket, v5: bool, r: Seq<GenericEvent<PacketIdType>>) -> bool {
        &&& (after.wf() == self.wf())
        &&& (control_result::<PacketIdType>(v5, 12, raw.spec_data()) matches Err(e) ==> self.error_outcome(
                after,
                v5,
                e,
                r,
            ))
        &&& (control_result::<PacketIdType>(v5, 12, raw.spec_data()) is Ok ==> {
                &&& after.spec_status() == self.spec_status()
                &&& r.len() >= 1
                &&& r.last() matches GenericEvent::NotifyPacketReceived(GenericPacket::Control(p)) && p.spec_packet_type() == 12
                &&& !self.answers_pingreq() ==> after == self.after_refresh() && r.drop_last()
                    == self.refresh_events()
                &&& self.answers_pingreq() ==> r.len() >= 2 && (r[0] matches GenericEvent::RequestSendPacket {
                    packet: GenericPacket::Control(q),
                    ..
                } && q.spec_packet_type() == 13 || r[0] == GenericEvent::<PacketIdType>::NotifyError(
                    MqttError::PacketTooLarge,
                ))
            })
    }

    /// Receives a PINGREQ: answered with a PINGRESP when `answers_pingreq`;
    /// the PINGREQ receive timer restarts and the packet is told, unless
    /// malformed.
    #[verifier::rlimit(50)]
    fn recv_pingreq(&mut self, raw: &RawPacket, v5: bool) -> (r: Vec<GenericEvent<PacketIdType>>)
        requires
            raw.spec_data().len() <= crate::packet::variable_byte_integer::VBI_MAX,
        ensures
            old(self).pingreq_recv_outcome(*final(self), *raw, v5, r@),
    {
        let mut events: Vec<GenericEvent<PacketIdType>> = Vec::new();
        match ControlPacket::<PacketIdType>::parse(v5, 12u8, raw.data_as_slice()) {
            Ok((packet, _)) => {
                let kind = Role::kind();
                if (kind == RoleKind::Server || kind == RoleKind::Any) && !self.is_client && self.auto_ping_response
                    && self.status == ConnectionStatus::Connected {
                    let empty: Vec<u8> = Vec::new();
                    match ControlPacket::new(v5, 13u8, None, None, None, None, empty) {
                        Ok(resp) => {
                            let mut sent = if v5 {
                                self.process_send_v5_0_pingresp(resp)
                            } else {
                                self.process_send_v3_1_1_pingresp(resp)
                            };
                            events.append(&mut sent);
                        },
                        Err(_) => {
                            assert(false);
                        },
                    }
                }
                let ghost mid = events@;
                self.notify_received(GenericPacket::Control(packet), &mut events);
                proof {
                    assert(events@.drop_last() =~= mid + old(self).refresh_events() || old(self).answers_pingreq());
                    if !old(self).answers_pingreq() {
                        assert(events@.drop_last() =~= old(self).refresh_events());
                    }
                }
            },
            Err(e) => {
                self.handle_error(v5, e, &mut events);
                proof { assert(events@.skip(0) =~= events@); }
            },
        }
        events
    }


    /// What receiving a PUBREC does (see `recv_pubrec`).
    pub open spec fn pubrec_recv_outcome(self, after: Self, raw: RawPacket, v5: bool, r: Seq<GenericEvent<PacketIdType>>) -> bool {
        &&& (after.wf() == self.wf())
        &&& (control_result::<PacketIdType>(v5, 5, raw.spec_data()) matches Err(e) ==> self.error_outcome(
                after,
                v5,
                e,
                r,
            ))
        &&& (control_result::<PacketIdType>(v5, 5, raw.spec_data()) is Ok ==> {
                let v = Self::recv_id(raw.spec_data());
                if self.awaiting(5).contains(v) {
                    &&& !after.spec_store().contains((Self::response_of(v5, 5), v as nat))
                    &&& after.spec_status() == self.spec_status()
                    &&& r.len() >= 1
                    &&& r.last() matches GenericEvent::NotifyPacketReceived(GenericPacket::Control(p)) && p.spec_packet_type() == 5
                } else {
                    self.error_outcome(after, v5, MqttError::ProtocolError, r)
                }
            })
    }

    /// Receives a PUBREC: its identifier must wait for it, and then stops
    /// waiting (and the stored PUBLISH is dropped). On success (v3.1.1, or a
    /// v5.0 reason code of 0 or none) a PUBREL is sent back when automatic
    /// responses are on and connected; a v5.0 failure ends the flow and
    /// releases the identifier. The packet is then told.
    #[verifier::rlimit(40)]
    fn recv_pubrec(&mut self, raw: &RawPacket, v5: bool) -> (r: Vec<GenericEvent<PacketIdType>>)
        requires
            raw.spec_data().len() <= crate::packet::variable_byte_integer::VBI_MAX,
        ensures
            old(self).pubrec_recv_outcome(*final(self), *raw, v5, r@),
    {
        let mut events: Vec<GenericEvent<PacketIdType>> = Vec::new();
        match ControlPacket::<PacketIdType>::parse(v5, 5u8, raw.data_as_slice()) {
            Ok((packet, _)) => {
                let packet_id = packet.packet_id().unwrap();
                proof {
                    lemma_pid_roundtrip(packet_id);
                    assert(raw.spec_data().subrange(0, PacketIdType::spec_width() as int) == pid_bytes(
                        packet_id.spec_value(),
                        PacketIdType::spec_width(),
                    ));
                    PacketIdType::lemma_packet_id(packet_id);
                }
                let v = packet_id.value();
                if !self.is_awaiting(5u8, v) {
                    self.handle_error(v5, MqttError::ProtocolError, &mut events);
                    proof { assert(events@.skip(0) =~= events@); }
                    return events;
                }
                self.take_awaiting(5u8, v);
                let resp = if v5 { ResponsePacket::V5_0Pubrec } else { ResponsePacket::V3_1_1Pubrec };
                self.store.erase(resp, v);
                let success = match packet.reason_code() {
                    None => true,
                    Some(rc) => rc == 0,
                };
                if !v5 || success {
                    if self.auto_pub_response && self.status == ConnectionStatus::Connected {
                        let empty: Vec<u8> = Vec::new();
                        match ControlPacket::new(v5, 6u8, Some(packet_id), None, None, None, empty) {
                            Ok(pubrel) => {
                                let mut sent = if v5 {
                                    self.process_send_v5_0_pubrel(pubrel)
                                } else {
                                    self.process_send_v3_1_1_pubrel(pubrel)
                                };
                                events.append(&mut sent);
                            },
                            Err(_) => {},
                        }
                    }
                } else {
                    self.release_if_used(packet_id, &mut events);
                    self.count_publish_done();
                }
                self.notify_received(GenericPacket::Control(packet), &mut events);
            },
            Err(e) => {
                self.handle_error(v5, e, &mut events);
                proof { assert(events@.skip(0) =~= events@); }
            },
        }
        events
    }

    /// What receiving a PUBREL does (see `recv_pubrel`).
    pub open spec fn pubrel_recv_outcome(self, after: Self, raw: RawPacket, v5: bool, r: Seq<GenericEvent<PacketIdType>>) -> bool {
        &&& (after.wf() == self.wf())
        &&& (control_result::<PacketIdType>(v5, 6, raw.spec_data()) matches Err(e) ==> self.error_outcome(
                after,
                v5,
                e,
                r,
            ))
        &&& (control_result::<PacketIdType>(v5, 6, raw.spec_data()) is Ok ==> {
                let v = Self::recv_id(raw.spec_data());
                &&& after.spec_qos2_publish_handled() == self.spec_qos2_publish_handled().remove(v)
                &&& after.spec_status() == self.spec_status()
                &&& r.len() >= 1
                &&& r.last() matches GenericEvent::NotifyPacketReceived(GenericPacket::Control(p)) && p.spec_packet_type() == 6
                &&& !(self.spec_auto_pub_response() && self.spec_status() == ConnectionStatus::Connected) ==> r.drop_last()
                    == self.refresh_events()
            })
    }

    /// Receives a PUBREL: the QoS 2 PUBLISH with its identifier is no
    /// longer held as handled, and a PUBCOMP is sent back when automatic
    /// responses are on and connected (in v5.0 with reason code 0x92, Packet
    /// Identifier not found, when none was held). The packet is then told.
    #[verifier::rlimit(40)]
    fn recv_pubrel(&mut self, raw: &RawPacket, v5: bool) -> (r: Vec<GenericEvent<PacketIdType>>)
        requires
            raw.spec_data().len() <= crate::packet::variable_byte_integer::VBI_MAX,
        ensures
            old(self).pubrel_recv_outcome(*final(self), *raw, v5, r@),
    {
        let mut events: Vec<GenericEvent<PacketIdType>> = Vec::new();
        match ControlPacket::<PacketIdType>::parse(v5, 6u8, raw.data_as_slice()) {
            Ok((packet, _)) => {
                let packet_id = packet.packet_id().unwrap();
                proof {
                    lemma_pid_roundtrip(packet_id);
                    assert(raw.spec_data().subrange(0, PacketIdType::spec_width() as int) == pid_bytes(
                        packet_id.spec_value(),
                        PacketIdType::spec_width(),
                    ));
                    PacketIdType::lemma_packet_id(packet_id);
                }
                let v = packet_id.value();
                let removed = self.qos2_publish_handled.remove(v);
                let ghost mid = *self;
                if self.auto_pub_response && self.status == ConnectionStatus::Connected {
                    let rc: Option<u8> = if v5 && !removed { Some(0x92u8) } else { None };
                    let empty: Vec<u8> = Vec::new();
                    match ControlPacket::new(v5, 7u8, Some(packet_id), None, rc, None, empty) {
                        Ok(pubcomp) => {
                            let mut sent = if v5 {
                                self.process_send_v5_0_pubcomp(pubcomp)
                            } else {
                                self.process_send_v3_1_1_pubcomp(pubcomp)
                            };
                            events.append(&mut sent);
                        },
                        Err(_) => {},
                    }
                }
                let ghost pre = events@;
                let ghost before = *self;
                self.notify_received(GenericPacket::Control(packet), &mut events);
                proof {
                    assert(events@.drop_last() =~= pre + before.refresh_events());
                }
            },
            Err(e) => {
                self.handle_error(v5, e, &mut events);
                proof { assert(events@.skip(0) =~= events@); }
            },
        }
        events
    }


    /// Applies one property of a received CONNACK (see
    /// `apply_peer_connack_limits`).
    #[verifier::rlimit(30)]
    fn apply_peer_connack_prop(&mut self, prop: &Property, events: &mut Vec<GenericEvent<PacketIdType>>)
        ensures
            final(self).publish_send_max == (match prop_u16(*prop, 0) {
                Some(v) => Some(v),
                None => old(self).publish_send_max,
            }),
            final(self).maximum_packet_size_send == (match prop_u32(*prop, 0) {
                Some(v) => v,
                None => old(self).maximum_packet_size_send,
            }),
            (prop_u16(*prop, 1) matches Some(v) && v != 0) ==> (final(self).topic_alias_send matches Some(t) && t.spec_max()
                == prop_u16(*prop, 1).unwrap() && t.spec_entries().len() == 0),
            !(prop_u16(*prop, 1) matches Some(v) && v != 0) ==> final(self).topic_alias_send == old(self).topic_alias_send,
            ({
                let st = server_keep_alive_step::<PacketIdType>(
                    *prop,
                    old(self).pingreq_user_send_interval_ms is None,
                    (old(events)@, old(self).pingreq_send_set, old(self).pingreq_server_keep_alive_ms),
                );
                &&& final(events)@ == st.0
                &&& final(self).pingreq_send_set == st.1
                &&& final(self).pingreq_server_keep_alive_ms == st.2
            }),
            *final(self) == (GenericConnection {
                publish_send_max: final(self).publish_send_max,
                maximum_packet_size_send: final(self).maximum_packet_size_send,
                topic_alias_send: final(self).topic_alias_send,
                pingreq_send_set: final(self).pingreq_send_set,
                pingreq_server_keep_alive_ms: final(self).pingreq_server_keep_alive_ms,
                ..*old(self)
            }),
    {
        match prop {
            Property::TopicAliasMaximum(val) => {
                if val.val() > 0 {
                    self.topic_alias_send = Some(TopicAliasSend::new(val.val()));
                }
            },
            Property::ReceiveMaximum(val) => {
                self.publish_send_max = Some(val.val());
            },
            Property::MaximumPacketSize(val) => {
                self.maximum_packet_size_send = val.val();
            },
            Property::ServerKeepAlive(val) => {
                let ms = val.val() as u64 * 1000;
                self.pingreq_server_keep_alive_ms = Some(ms);
                if self.pingreq_user_send_interval_ms.is_none() {
                    if ms == 0 {
                        if self.pingreq_send_set {
                            self.pingreq_send_set = false;
                            events.push(GenericEvent::RequestTimerCancel(TimerKind::PingreqSend));
                        }
                    } else {
                        self.pingreq_send_set = true;
                        events.push(GenericEvent::RequestTimerReset { kind: TimerKind::PingreqSend, duration_ms: ms });
                    }
                }
            },
            _ => {},
        }
    }

    /// Applies the limits the peer announces in the properties of the CONNACK
    /// it sent: receive maximum, maximum packet size, topic alias maximum
    /// (when not 0), and the server keep alive, which becomes the PINGREQ
    /// interval unless the user set one.
    #[verifier::rlimit(40)]
    fn apply_peer_connack_limits(&mut self, props: &Properties, events: &mut Vec<GenericEvent<PacketIdType>>)
        ensures
            final(self).publish_send_max == (match last_u16(props@, 0, false) {
                Some(v) => Some(v),
                None => old(self).publish_send_max,
            }),
            final(self).maximum_packet_size_send == (match last_u32(props@, 0, false) {
                Some(v) => v,
                None => old(self).maximum_packet_size_send,
            }),
            last_u16(props@, 1, true) matches Some(v) ==> final(self).topic_alias_send matches Some(t) && t.spec_max() == v
                && t.spec_entries().len() == 0,
            last_u16(props@, 1, true) is None ==> final(self).topic_alias_send == old(self).topic_alias_send,
            ({
                let st = server_keep_alive_steps::<PacketIdType>(
                    props@,
                    old(self).pingreq_user_send_interval_ms is None,
                    old(self).pingreq_send_set,
                    old(self).pingreq_server_keep_alive_ms,
                );
                &&& final(events)@ == old(events)@ + st.0
                &&& final(self).pingreq_send_set == st.1
                &&& final(self).pingreq_server_keep_alive_ms == st.2
            }),
            *final(self) == (GenericConnection {
                publish_send_max: final(self).publish_send_max,
                maximum_packet_size_send: final(self).maximum_packet_size_send,
                topic_alias_send: final(self).topic_alias_send,
                pingreq_send_set: final(self).pingreq_send_set,
                pingreq_server_keep_alive_ms: final(self).pingreq_server_keep_alive_ms,
                ..*old(self)
            }),
    {
        let ghost e0 = events@;
        let ghost user_none = self.pingreq_user_send_interval_ms is None;
        let mut i: usize = 0;
        while i < props.len()
            invariant
                i <= props@.len(),
                user_none == (old(self).pingreq_user_send_interval_ms is None),
                self.publish_send_max == (match last_u16(props@.take(i as int), 0, false) {
                    Some(v) => Some(v),
                    None => old(self).publish_send_max,
                }),
                self.maximum_packet_size_send == (match last_u32(props@.take(i as int), 0, false) {
                    Some(v) => v,
                    None => old(self).maximum_packet_size_send,
                }),
                last_u16(props@.take(i as int), 1, true) matches Some(v) ==> self.topic_alias_send matches Some(t)
                    && t.spec_max() == v && t.spec_entries().len() == 0,
                last_u16(props@.take(i as int), 1, true) is None ==> self.topic_alias_send == old(self).topic_alias_send,
                ({
                    let st = server_keep_alive_steps::<PacketIdType>(
                        props@.take(i as int),
                        user_none,
                        old(self).pingreq_send_set,
                        old(self).pingreq_server_keep_alive_ms,
                    );
                    &&& events@ == e0 + st.0
                    &&& self.pingreq_send_set == st.1
                    &&& self.pingreq_server_keep_alive_ms == st.2
                }),
                *self == (GenericConnection {
                    publish_send_max: self.publish_send_max,
                    maximum_packet_size_send: self.maximum_packet_size_send,
                    topic_alias_send: self.topic_alias_send,
                    pingreq_send_set: self.pingreq_send_set,
                    pingreq_server_keep_alive_ms: self.pingreq_server_keep_alive_ms,
                    ..*old(self)
                }),
            decreases props@.len() - i,
        {
            proof { lemma_last_step(props@, i as int); }
            let ghost prev = server_keep_alive_steps::<PacketIdType>(
                props@.take(i as int),
                user_none,
                old(self).pingreq_send_set,
                old(self).pingreq_server_keep_alive_ms,
            );
            let ghost ev_before = events@;
            self.apply_peer_connack_prop(&props[i], events);
            proof {
                let st1 = server_keep_alive_step::<PacketIdType>(props@[i as int], user_none, (ev_before, prev.1, prev.2));
                let st2 = server_keep_alive_step::<PacketIdType>(props@[i as int], user_none, prev);
                assert(st1.0 =~= e0 + st2.0);
            }
            i = i + 1;
        }
        proof { assert(props@.take(i as int) =~= props@); }
    }

    /// Whether a CONNACK says that the server holds a session.
    pub open spec fn connack_session_present(p: ControlPacket<PacketIdType>) -> bool {
        p.spec_ack_flags() matches Some(f) && f & 1u8 != 0
    }

    /// What receiving a CONNACK does (see `recv_connack`).
    pub open spec fn connack_recv_outcome(self, after: Self, raw: RawPacket, v5: bool, r: Seq<GenericEvent<PacketIdType>>) -> bool {
        &&& (after.wf() == self.wf())
        &&& (control_result::<PacketIdType>(v5, 2, raw.spec_data()) matches Err(e) ==> {
                if !v5 || self.spec_status() == ConnectionStatus::Connected {
                    self.error_outcome(after, v5, e, r)
                } else {
                    r == seq![GenericEvent::<PacketIdType>::NotifyError(e)] && after == self
                }
            })
        &&& (control_result::<PacketIdType>(v5, 2, raw.spec_data()) is Ok ==> {
                &&& r.len() >= 1
                &&& r.last() matches GenericEvent::NotifyPacketReceived(GenericPacket::Control(p)) && {
                    &&& p.spec_packet_type() == 2
                    &&& p.spec_reason_code() != Some(0u8) ==> r.len() == 1 && after == self
                    &&& p.spec_reason_code() == Some(0u8) ==> {
                        &&& after.spec_status() == ConnectionStatus::Connected
                        &&& !Self::connack_session_present(p) ==> after.spec_store() == Seq::<(ResponsePacket, nat)>::empty()
                            && after.spec_pid_used() == Set::<u32>::empty()
                        &&& v5 ==> {
                            let ps = p.spec_props().unwrap();
                            &&& after.spec_publish_send_max() == (match last_u16(ps, 0, false) {
                                Some(v) => Some(v),
                                None => self.spec_publish_send_max(),
                            })
                            &&& after.spec_maximum_packet_size_send() == (match last_u32(ps, 0, false) {
                                Some(v) => v,
                                None => self.spec_maximum_packet_size_send(),
                            })
                            &&& (last_u16(ps, 1, true) matches Some(v) ==> after.spec_topic_alias_send() matches Some(t)
                                && t.spec_max() == v && t.spec_entries().len() == 0)
                            &&& (last_u16(ps, 1, true) is None ==> after.spec_topic_alias_send() == self.spec_topic_alias_send())
                            &&& after.spec_pingreq_server_keep_alive_ms() == server_keep_alive_steps::<PacketIdType>(
                                ps,
                                self.spec_pingreq_user_send_interval_ms() is None,
                                self.spec_timer_flags().0,
                                self.spec_pingreq_server_keep_alive_ms(),
                            ).2
                        }
                        &&& !v5 ==> after.spec_maximum_packet_size_send() == self.spec_maximum_packet_size_send()
                            && after.spec_topic_alias_send() == self.spec_topic_alias_send()
                        &&& ({
                            let ka = if v5 {
                                server_keep_alive_steps::<PacketIdType>(
                                    p.spec_props().unwrap(),
                                    self.spec_pingreq_user_send_interval_ms() is None,
                                    self.spec_timer_flags().0,
                                    self.spec_pingreq_server_keep_alive_ms(),
                                ).0
                            } else {
                                Seq::<GenericEvent<PacketIdType>>::empty()
                            };
                            let n = if Self::connack_session_present(p) { self.spec_store_packets().len() } else { 0 };
                            let max = after.spec_maximum_packet_size_send() as nat;
                            &&& r.len() == ka.len() + n + 1
                            &&& r.take(ka.len() as int) == ka
                            &&& forall|k: int| 0 <= k < n ==> stored_event(self.spec_store_packets()[k], max, #[trigger] r[ka.len() + k])
                            &&& Self::connack_session_present(p) ==> after.spec_store() == kept_keys(self.spec_store_packets(), max)
                                && after.spec_pid_used() == self.spec_pid_used().difference(dropped_ids(self.spec_store_packets(), max))
                        })
                    }
                }
            })
    }

    /// Receives a CONNACK. A reason code of 0 establishes the connection,
    /// applies the limits its properties announce (v5.0), and sends the
    /// stored packets again when the server holds the session, or forgets
    /// the session otherwise. The packet is then told. A malformed v3.1.1
    /// CONNACK is an error; a malformed v5.0 one is an error that is reported
    /// to the peer only when connected.
    #[verifier::rlimit(40)]
    fn recv_connack(&mut self, raw: &RawPacket, v5: bool) -> (r: Vec<GenericEvent<PacketIdType>>)
        requires
            raw.spec_data().len() <= crate::packet::variable_byte_integer::VBI_MAX,
        ensures
            old(self).connack_recv_outcome(*final(self), *raw, v5, r@),
    {
        let ghost mut kg: Seq<GenericEvent<PacketIdType>> = Seq::empty();
        let mut events: Vec<GenericEvent<PacketIdType>> = Vec::new();
        match ControlPacket::<PacketIdType>::parse(v5, 2u8, raw.data_as_slice()) {
            Ok((packet, _)) => {
                if packet.reason_code() == Some(0u8) {
                    self.status = ConnectionStatus::Connected;
                    if v5 {
                        match packet.props() {
                            Some(ps) => self.apply_peer_connack_limits(ps, &mut events),
                            None => {},
                        }
                    }
                    let ghost limits = *self;
                    let ghost ka = events@;
                    proof { kg = ka; }
                    if packet.session_present() {
                        let mut stored = self.send_stored();
                        let ghost sv = stored@;
                        events.append(&mut stored);
                        proof {
                            assert(events@ =~= ka + sv);
                            assert(limits.spec_store_packets() == old(self).spec_store_packets());
                        }
                    } else {
                        self.clear_store_related();
                    }
                    assert(self.spec_publish_send_max() == limits.spec_publish_send_max());
                    proof {
                        assert(events@.take(ka.len() as int) =~= ka);
                        if !v5 {
                            assert(ka =~= Seq::<GenericEvent<PacketIdType>>::empty());
                        } else if packet.spec_props() is None {
                            assert(false);
                        }
                    }
                }
                let ghost before_notify = events@;
                events.push(GenericEvent::NotifyPacketReceived(GenericPacket::Control(packet)));
                proof {
                    assert(events@.take(before_notify.len() as int) =~= before_notify);
                    if kg.len() <= before_notify.len() && before_notify.take(kg.len() as int) == kg {
                        assert(events@.take(kg.len() as int) =~= kg);
                    }
                }
            },
            Err(e) => {
                if !v5 || self.status == ConnectionStatus::Connected {
                    self.handle_error(v5, e, &mut events);
                    proof { assert(events@.skip(0) =~= events@); }
                } else {
                    events.push(GenericEvent::NotifyError(e));
                }
            },
        }
        events
    }


    /// The CONNACK reason code that refuses a CONNECT that failed to parse
    /// with error `e`: in v3.1.1 2 (Identifier rejected), 4 (Bad user name or
    /// password), 1 (Unacceptable protocol version) or 5 (Not authorized);
    /// in v5.0 0x85, 0x86, 0x84 or 0x80 (Unspecified error).
    pub open spec fn connect_refusal_code(v5: bool, e: MqttError) -> u8 {
        match e {
            MqttError::ClientIdentifierNotValid => if v5 { 0x85 } else { 2 },
            MqttError::BadUserNameOrPassword => if v5 { 0x86 } else { 4 },
            MqttError::UnsupportedProtocolVersion => if v5 { 0x84 } else { 1 },
            _ => if v5 { 0x80 } else { 5 },
        }
    }

    /// Refuses a CONNECT that failed to parse with error `e`: a CONNACK with
    /// the matching code (see `connect_refusal_code`) and no session is sent,
    /// which closes the connection, and the error is told.
    fn refuse_connect(&mut self, v5: bool, e: MqttError, events: &mut Vec<GenericEvent<PacketIdType>>)
        requires
            old(self).spec_status() == ConnectionStatus::Connecting,
        ensures
            final(self).spec_protocol_version() == old(self).spec_protocol_version(),
            final(self).wf() == old(self).wf(),
            final(events)@.len() > old(events)@.len(),
            final(events)@.last() == GenericEvent::<PacketIdType>::NotifyError(e),
            final(events)@.take(old(events)@.len() as int) == old(events)@,
    {
        let ghost e0 = events@;
        let code: u8 = match e {
            MqttError::ClientIdentifierNotValid => if v5 { 0x85u8 } else { 2u8 },
            MqttError::BadUserNameOrPassword => if v5 { 0x86u8 } else { 4u8 },
            MqttError::UnsupportedProtocolVersion => if v5 { 0x84u8 } else { 1u8 },
            _ => if v5 { 0x80u8 } else { 5u8 },
        };
        let props: Option<Properties> = if v5 { Some(Vec::new()) } else { None };
        let empty: Vec<u8> = Vec::new();
        match ControlPacket::new(v5, 2u8, None, Some(0u8), Some(code), props, empty) {
            Ok(connack) => {
                let mut sent = if v5 {
                    self.process_send_v5_0_connack(connack)
                } else {
                    self.process_send_v3_1_1_connack(connack)
                };
                events.append(&mut sent);
            },
            Err(_) => {},
        }
        events.push(GenericEvent::NotifyError(e));
        proof { assert(events@.take(e0.len() as int) =~= e0); }
    }

    /// What receiving a v3.1.1 CONNECT does (see `recv_v3_1_1_connect`).
    pub open spec fn v3_connect_recv_outcome(self, after: Self, raw: RawPacket, r: Seq<GenericEvent<PacketIdType>>) -> bool {
        &&& (after.spec_protocol_version() == self.spec_protocol_version())
        &&& (after.wf() == self.wf())
        &&& (self.spec_status() != ConnectionStatus::Disconnected ==> self.error_outcome(
                after,
                false,
                MqttError::ProtocolError,
                r,
            ))
        &&& (self.spec_status() == ConnectionStatus::Disconnected ==> match v3_1_1::connect::connect_result(raw.spec_data()) {
                Err(e) => r.len() >= 1 && r.last() == GenericEvent::<PacketIdType>::NotifyError(e),
                Ok(_) => {
                    &&& after.spec_status() == ConnectionStatus::Connecting
                    &&& !after.spec_is_client()
                    &&& r.len() >= 1
                    &&& r.last() matches GenericEvent::NotifyPacketReceived(GenericPacket::V3_1_1Connect(c)) && {
                        &&& after.spec_pingreq_recv_timeout_ms() == (if c.spec_keep_alive() > 0 {
                            (c.spec_keep_alive() * 1500) as u64
                        } else {
                            self.spec_pingreq_recv_timeout_ms()
                        })
                        &&& after.spec_need_store() == !crate::packet::connect_common::flag_clean(c.spec_flags())
                        &&& crate::packet::connect_common::flag_clean(c.spec_flags()) ==> after.spec_store()
                            == Seq::<(ResponsePacket, nat)>::empty()
                    }
                },
            })
    }

    /// Receives a v3.1.1 CONNECT (server side): only while disconnected.
    /// The connection becomes connecting. A well-formed packet sets the
    /// connection up as a server: the PINGREQ receive timeout becomes 1.5
    /// times the keep alive (when not 0), the session is cleared or kept by
    /// the Clean Session flag, and the packet is told. A malformed one is
    /// refused with a CONNACK.
    fn recv_v3_1_1_connect(&mut self, raw: &RawPacket) -> (r: Vec<GenericEvent<PacketIdType>>)
        ensures
            old(self).v3_connect_recv_outcome(*final(self), *raw, r@),
    {
        let mut events: Vec<GenericEvent<PacketIdType>> = Vec::new();
        if self.status != ConnectionStatus::Disconnected {
            Self::handle_v3_1_1_error(MqttError::ProtocolError, &mut events);
            proof { assert(events@ =~= seq![GenericEvent::<PacketIdType>::RequestClose, GenericEvent::<PacketIdType>::NotifyError(MqttError::ProtocolError)]); }
            return events;
        }
        self.status = ConnectionStatus::Connecting;
        match v3_1_1::connect::Connect::parse(raw.data_as_slice()) {
            Ok((packet, _)) => {
                self.initialize(false);
                let ka = packet.keep_alive();
                if ka > 0 {
                    self.pingreq_recv_timeout_ms = ka as u64 * 1500;
                }
                if packet.clean_start() {
                    self.clear_store_related();
                } else {
                    self.need_store = true;
                }
                self.notify_received(GenericPacket::V3_1_1Connect(packet), &mut events);
            },
            Err(e) => {
                self.refuse_connect(false, e, &mut events);
            },
        }
        events
    }

    /// What receiving a v5.0 CONNECT does (see `recv_v5_0_connect`).
    pub open spec fn v5_connect_recv_outcome(self, after: Self, raw: RawPacket, r: Seq<GenericEvent<PacketIdType>>) -> bool {
        &&& (after.spec_protocol_version() == self.spec_protocol_version())
        &&& (after.wf() == self.wf())
        &&& (self.spec_status() != ConnectionStatus::Disconnected ==> self.error_outcome(
                after,
                true,
                MqttError::ProtocolError,
                r,
            ))
        &&& (self.spec_status() == ConnectionStatus::Disconnected ==> match v5_0::connect::connect_v5_result(raw.spec_data()) {
                Err(e) => r.len() >= 1 && r.last() == GenericEvent::<PacketIdType>::NotifyError(e),
                Ok(_) => {
                    &&& after.spec_status() == ConnectionStatus::Connecting
                    &&& !after.spec_is_client()
                    &&& r.len() >= 1
                    &&& r.last() matches GenericEvent::NotifyPacketReceived(GenericPacket::V5_0Connect(c)) && {
                        &&& after.spec_pingreq_recv_timeout_ms() == (if c.spec_keep_alive() > 0 {
                            (c.spec_keep_alive() * 1500) as u64
                        } else {
                            self.spec_pingreq_recv_timeout_ms()
                        })
                        &&& after.spec_publish_send_max() == last_u16(c.spec_props(), 0, false)
                        &&& after.spec_maximum_packet_size_send() == (match last_u32(c.spec_props(), 0, false) {
                            Some(v) => v,
                            None => self.spec_maximum_packet_size_send(),
                        })
                        &&& after.spec_need_store() == (last_u32(c.spec_props(), 1, true) is Some)
                        &&& crate::packet::connect_common::flag_clean(c.spec_flags()) ==> after.spec_store()
                            == Seq::<(ResponsePacket, nat)>::empty()
                    }
                },
            })
    }

    /// Receives a v5.0 CONNECT (server side): as in v3.1.1, with the Clean
    /// Start flag, and the limits the client announces in its properties
    /// applied (receive maximum, maximum packet size, topic alias maximum,
    /// session expiry).
    #[verifier::rlimit(40)]
    fn recv_v5_0_connect(&mut self, raw: &RawPacket) -> (r: Vec<GenericEvent<PacketIdType>>)
        requires
            raw.spec_data().len() <= crate::packet::variable_byte_integer::VBI_MAX,
        ensures
            old(self).v5_connect_recv_outcome(*final(self), *raw, r@),
    {
        let mut events: Vec<GenericEvent<PacketIdType>> = Vec::new();
        if self.status != ConnectionStatus::Disconnected {
            self.handle_v5_0_error(MqttError::ProtocolError, &mut events);
            proof { assert(events@.skip(0) =~= events@); }
            return events;
        }
        self.status = ConnectionStatus::Connecting;
        match v5_0::connect::Connect::parse(raw.data_as_slice()) {
            Ok((packet, _)) => {
                self.initialize(false);
                let ka = packet.keep_alive();
                if ka > 0 {
                    self.pingreq_recv_timeout_ms = ka as u64 * 1500;
                }
                if packet.clean_start() {
                    self.clear_store_related();
                }
                self.apply_peer_connect_limits(packet.props());
                self.notify_received(GenericPacket::V5_0Connect(packet), &mut events);
            },
            Err(e) => {
                self.refuse_connect(true, e, &mut events);
            },
        }
        events
    }


    /// Sends the acknowledgement of a received PUBLISH with identifier `id`:
    /// a PUBACK (`t` 4) or PUBREC (5) of the connection's version.
    fn send_publish_ack(&mut self, v5: bool, t: u8, id: PacketIdType, events: &mut Vec<GenericEvent<PacketIdType>>)
        requires
            t == 4 || t == 5,
        ensures
            final(self).wf() == old(self).wf(),
            final(self).spec_status() == old(self).spec_status(),
            final(self).spec_publish_recv().subset_of(old(self).spec_publish_recv()),
            final(self).spec_qos2_publish_handled() == old(self).spec_qos2_publish_handled(),
            final(events)@.len() >= old(events)@.len(),
            final(events)@.take(old(events)@.len() as int) == old(events)@,
            exists|ack: ControlPacket<PacketIdType>| #[trigger] Self::is_publish_ack(ack, v5, t, id) && (if v5 {
                old(self).ack_send_outcome(*final(self), ack, id.spec_value() as u32, false, final(events)@.skip(old(events)@.len() as int))
            } else {
                old(self).simple_send_outcome(*final(self), GenericPacket::Control(ack), false, final(events)@.skip(old(events)@.len() as int))
            }),
            v5 ==> final(self).spec_topic_alias_recv() == old(self).spec_topic_alias_recv(),
            v5 ==> final(self).spec_pingreq_recv_timeout_ms() == old(self).spec_pingreq_recv_timeout_ms(),
    {
        let ghost e0 = events@;
        let empty: Vec<u8> = Vec::new();
        proof { PacketIdType::lemma_packet_id(id); }
        match ControlPacket::new(v5, t, Some(id), None, None, None, empty) {
            Ok(ack) => {
                let ghost a = ack;
                let mut sent = if t == 4 {
                    if v5 { self.process_send_v5_0_puback(ack) } else { self.process_send_v3_1_1_puback(ack) }
                } else {
                    if v5 { self.process_send_v5_0_pubrec(ack) } else { self.process_send_v3_1_1_pubrec(ack) }
                };
                let ghost sent_v = sent@;
                events.append(&mut sent);
                proof {
                    assert(events@.skip(e0.len() as int) =~= sent_v);
                    assert(Self::is_publish_ack(a, v5, t, id));
                }
            },
            Err(_) => {
                assert(false);
            },
        }
        proof { assert(events@.take(e0.len() as int) =~= e0); }
    }

    /// `ack` is the PUBACK (`t` 4) or PUBREC (5) for the PUBLISH with
    /// identifier `id`, of v5.0 when `v5`: no reason code, no properties.
    pub open spec fn is_publish_ack(ack: ControlPacket<PacketIdType>, v5: bool, t: u8, id: PacketIdType) -> bool {
        &&& ack.spec_v5() == v5
        &&& ack.spec_packet_type() == t
        &&& ack.spec_packet_id() == Some(id)
        &&& ack.spec_ack_flags() is None
        &&& ack.spec_reason_code() is None
        &&& ack.spec_props() is None
        &&& ack.spec_payload().len() == 0
    }

    /// What handling a well-formed v3.1.1 PUBLISH does (see `handle_v3_1_1_publish`).
    pub open spec fn v3_publish_handle_outcome(self, after: Self, packet: v3_1_1::publish::GenericPublish<PacketIdType>, r: Seq<GenericEvent<PacketIdType>>) -> bool {
        &&& (after.wf() == self.wf())
        &&& (after.spec_status() == self.spec_status())
        &&& (({
                let q = header_qos(packet.spec_fixed_header());
                let v = packet.spec_packet_id().unwrap().spec_value() as u32;
                let already = q == 2 && self.spec_qos2_publish_handled().contains(v);
                let answers = self.spec_status() == ConnectionStatus::Connected && (
                self.spec_auto_pub_response() || already);
                &&& q == 2 ==> after.spec_qos2_publish_handled() == self.spec_qos2_publish_handled().insert(v)
                &&& !already ==> r.len() >= 1 && r.last() == GenericEvent::NotifyPacketReceived(
                    GenericPacket::V3_1_1Publish(packet),
                )
                &&& (q == 0 || !answers) ==> r == self.refresh_events() + (if already {
                    Seq::<GenericEvent<PacketIdType>>::empty()
                } else {
                    seq![GenericEvent::NotifyPacketReceived(GenericPacket::V3_1_1Publish(packet))]
                })
                &&& (q != 0 && answers) ==> exists|ack: ControlPacket<PacketIdType>|
                    #[trigger] Self::is_publish_ack(ack, false, ack_type(q), packet.spec_packet_id().unwrap())
                    && r == seq![
                        GenericEvent::RequestSendPacket { packet: GenericPacket::Control(ack), release_packet_id_if_send_error: None },
                    ] + self.post_process_events() + self.refresh_events() + (if already {
                        Seq::<GenericEvent<PacketIdType>>::empty()
                    } else {
                        seq![GenericEvent::NotifyPacketReceived(GenericPacket::V3_1_1Publish(packet))]
                    })
            }))
    }

    /// Receives a well-formed v3.1.1 PUBLISH. QoS 1 is answered with a PUBACK
    /// when automatic responses are on and connected. For QoS 2 the
    /// identifier is held as handled; a PUBREC answers when connected and
    /// automatic responses are on or the packet was handled already, and a
    /// packet handled already is not told again. The PINGREQ receive timer
    /// restarts.
    /// The answer to a received v3.1.1 PUBLISH once counted: the
    /// acknowledgement of type `t` for `id` when `answer` (connected), the
    /// PINGREQ receive timer restart, and the packet told unless `already`.
    #[verifier::rlimit(60)]
    fn answer_v3_publish(
        &mut self,
        packet: v3_1_1::publish::GenericPublish<PacketIdType>,
        t: u8,
        id: PacketIdType,
        answer: bool,
        already: bool,
    ) -> (r: Vec<GenericEvent<PacketIdType>>)
        requires
            t == 4 || t == 5,
            answer ==> old(self).spec_status() == ConnectionStatus::Connected,
        ensures
            final(self).wf() == old(self).wf(),
            final(self).spec_status() == old(self).spec_status(),
            final(self).spec_qos2_publish_handled() == old(self).spec_qos2_publish_handled(),
            !answer ==> r@ == old(self).refresh_events() + (if already {
                Seq::<GenericEvent<PacketIdType>>::empty()
            } else {
                seq![GenericEvent::NotifyPacketReceived(GenericPacket::V3_1_1Publish(packet))]
            }),
            answer ==> exists|ack: ControlPacket<PacketIdType>|
                #[trigger] Self::is_publish_ack(ack, false, t, id)
                && r@ == seq![
                    GenericEvent::RequestSendPacket { packet: GenericPacket::Control(ack), release_packet_id_if_send_error: None },
                ] + old(self).post_process_events() + old(self).refresh_events() + (if already {
                    Seq::<GenericEvent<PacketIdType>>::empty()
                } else {
                    seq![GenericEvent::NotifyPacketReceived(GenericPacket::V3_1_1Publish(packet))]
                }),
    {
        let mut events: Vec<GenericEvent<PacketIdType>> = Vec::new();
        if answer {
            self.send_publish_ack(false, t, id, &mut events);
        }
        let ghost pre = events@;
        let ghost before = *self;
        let mut refresh = self.refresh_pingreq_recv();
        events.append(&mut refresh);
        if !already {
            events.push(GenericEvent::NotifyPacketReceived(GenericPacket::V3_1_1Publish(packet)));
        }
        proof {
            assert(pre.skip(0) =~= pre);
            assert(before.refresh_events() == old(self).refresh_events());
            if answer {
                let ack = choose|ack: ControlPacket<PacketIdType>| #[trigger] Self::is_publish_ack(ack, false, t, id)
                    && old(self).simple_send_outcome(before, GenericPacket::Control(ack), false, pre.skip(0));
                assert(events@ =~= pre + before.refresh_events() + (if already {
                    Seq::<GenericEvent<PacketIdType>>::empty()
                } else {
                    seq![GenericEvent::NotifyPacketReceived(GenericPacket::V3_1_1Publish(packet))]
                }));
                assert(Self::is_publish_ack(ack, false, t, id));
            } else {
                assert(pre.len() == 0);
                assert(events@ =~= before.refresh_events() + (if already {
                    Seq::<GenericEvent<PacketIdType>>::empty()
                } else {
                    seq![GenericEvent::NotifyPacketReceived(GenericPacket::V3_1_1Publish(packet))]
                }));
            }
        }
        events
    }

    /// A connected v3.1.1 connection with automatic responses answers a
    /// received PUBLISH of QoS 1 with a PUBACK and one of QoS 2 with a
    /// PUBREC, for the PUBLISH's packet identifier: the first event asks to
    /// send that v3.1.1 acknowledgement, and no other event asks to send a
    /// packet.
    pub proof fn lemma_v3_publish_auto_ack(
        s: Self,
        after: Self,
        packet: v3_1_1::publish::GenericPublish<PacketIdType>,
        r: Seq<GenericEvent<PacketIdType>>,
    )
        requires
            s.v3_publish_handle_outcome(after, packet, r),
            s.spec_status() == ConnectionStatus::Connected,
            s.spec_auto_pub_response(),
            header_qos(packet.spec_fixed_header()) == 1 || header_qos(packet.spec_fixed_header()) == 2,
            packet.spec_packet_id() is Some,
        ensures
            r.len() >= 1,
            r[0] matches GenericEvent::RequestSendPacket { packet: GenericPacket::Control(ack), release_packet_id_if_send_error: None }
                && ack.spec_packet_type() == (if header_qos(packet.spec_fixed_header()) == 1 { 4u8 } else { 5u8 })
                && !ack.spec_v5() && ack.spec_packet_id() == packet.spec_packet_id(),
            forall|k: int| 1 <= k < r.len() ==> !(#[trigger] r[k] is RequestSendPacket),
    {
        let q = header_qos(packet.spec_fixed_header());
        let id = packet.spec_packet_id().unwrap();
        let ack = choose|ack: ControlPacket<PacketIdType>|
            #[trigger] Self::is_publish_ack(ack, false, ack_type(q), id) && r == seq![
                GenericEvent::RequestSendPacket { packet: GenericPacket::Control(ack), release_packet_id_if_send_error: None },
            ] + s.post_process_events() + s.refresh_events() + (if q == 2 && s.spec_qos2_publish_handled().contains(id.spec_value() as u32) {
                Seq::<GenericEvent<PacketIdType>>::empty()
            } else {
                seq![GenericEvent::NotifyPacketReceived(GenericPacket::V3_1_1Publish(packet))]
            });
        let head = seq![
            GenericEvent::RequestSendPacket { packet: GenericPacket::Control(ack), release_packet_id_if_send_error: None },
        ];
        let pp = s.post_process_events();
        let rf = s.refresh_events();
        assert forall|k: int| 1 <= k < r.len() implies !(#[trigger] r[k] is RequestSendPacket) by {
            if k < 1 + pp.len() {
                assert(r[k] == pp[k - 1]);
            } else if k < 1 + pp.len() + rf.len() {
                assert(r[k] == rf[k - 1 - pp.len()]);
            }
        }
        assert(r[0] == head[0]);
    }

    /// A QoS 1 or 2 v3.1.1 PUBLISH sent while the session is kept is stored
    /// for retransmission with DUP set: the stored packets gain one entry at
    /// the end, the same PUBLISH (QoS, RETAIN, topic, packet identifier,
    /// payload) with the DUP flag on; the packets stored before stay.
    pub proof fn lemma_v3_publish_stored_with_dup(
        s: Self,
        after: Self,
        packet: v3_1_1::publish::GenericPublish<PacketIdType>,
        r: Seq<GenericEvent<PacketIdType>>,
    )
        requires
            s.v3_publish_send_outcome(after, packet, r),
            header_qos(packet.spec_fixed_header()) != 0,
            s.publish_refused(packet.spec_packet_id().unwrap()) is None,
            s.stores_publish(),
            !s.spec_store().contains((
                if header_qos(packet.spec_fixed_header()) == 1 { ResponsePacket::V3_1_1Puback } else { ResponsePacket::V3_1_1Pubrec },
                packet.spec_packet_id().unwrap().spec_value(),
            )),
        ensures
            after.spec_store_packets().len() == s.spec_store_packets().len() + 1,
            forall|i: int| 0 <= i < s.spec_store_packets().len() ==> after.spec_store_packets()[i] == s.spec_store_packets()[i],
            after.spec_store_packets().last() matches GenericStorePacket::V3_1_1Publish(q) && {
                &&& q.spec_fixed_header() & 8u8 != 0
                &&& (q.spec_fixed_header() >> 1u8) & 3u8 == (packet.spec_fixed_header() >> 1u8) & 3u8
                &&& q.spec_fixed_header() & 1u8 == packet.spec_fixed_header() & 1u8
                &&& q.spec_topic_name() == packet.spec_topic_name()
                &&& q.spec_packet_id() == packet.spec_packet_id()
                &&& q.spec_payload() == packet.spec_payload()
            },
    {
        let a = after.spec_store_packets();
        let b = s.spec_store_packets();
        assert forall|i: int| 0 <= i < b.len() implies a[i] == b[i] by {
            assert(a.drop_last()[i] == a[i]);
        }
        if let GenericStorePacket::V3_1_1Publish(q) = a.last() {
            let h = q.spec_fixed_header();
            let p = packet.spec_fixed_header();
            assert(crate::packet::publish_common::header_retain(h) == crate::packet::publish_common::header_retain(p));
            assert((h & 1u8 != 0) == (p & 1u8 != 0) ==> h & 1u8 == p & 1u8) by (bit_vector);
        }
    }

    /// Receives a well-formed v3.1.1 PUBLISH (see `v3_publish_handle_outcome`).
    fn handle_v3_1_1_publish(&mut self, packet: v3_1_1::publish::GenericPublish<PacketIdType>) -> (r: Vec<GenericEvent<PacketIdType>>)
        ensures
            old(self).v3_publish_handle_outcome(*final(self), packet, r@),
    {
        let q = packet.qos().to_u8();
        if q == 1 {
            let packet_id = packet.packet_id().unwrap();
            let answer = self.status == ConnectionStatus::Connected && self.auto_pub_response;
            proof { assert(ack_type(q) == 4u8); }
            self.answer_v3_publish(packet, 4u8, packet_id, answer, false)
        } else if q == 2 {
            let packet_id = packet.packet_id().unwrap();
            let already_handled = !self.qos2_publish_handled.insert(packet_id.value());
            let answer = self.status == ConnectionStatus::Connected && (self.auto_pub_response || already_handled);
            let ghost mid = *self;
            let r = self.answer_v3_publish(packet, 5u8, packet_id, answer, already_handled);
            proof {
                assert(mid.post_process_events() == old(self).post_process_events());
                assert(mid.refresh_events() == old(self).refresh_events());
                assert(ack_type(q) == 5u8);
            }
            r
        } else {
            let dummy = PacketIdType::from_value(1);
            self.answer_v3_publish(packet, 4u8, dummy, false, false)
        }
    }

    /// Whether the receive maximum this side announced is reached: as many
    /// QoS 1 and 2 PUBLISH packets received and not yet acknowledged.
    pub open spec fn recv_maximum_reached(self) -> bool {
        self.spec_publish_recv_max() matches Some(m) && self.spec_publish_recv().len() >= m
    }

    /// Whether a received topic alias is usable: not 0 and within the
    /// maximum this side announced.
    pub open spec fn recv_alias_valid(self, ta: u16) -> bool {
        self.spec_topic_alias_recv() matches Some(t) && 1 <= ta <= t.spec_max()
    }

    /// Whether topic `t` can be put into received `packet` in place of its
    /// empty topic name: it has no wildcard, its UTF-8 encoding takes at most
    /// 65,535 bytes, and the packet body then still fits.
    pub open spec fn recv_topic_fits(packet: v5_0::publish::GenericPublish<PacketIdType>, t: Seq<char>) -> bool {
        let tl = vstd::utf8::encode_utf8(t).len();
        &&& !crate::packet::publish_common::has_wildcard(t)
        &&& tl <= 65535
        &&& v5_0::publish::publish_body_len::<PacketIdType>(
            tl,
            packet.spec_packet_id() is Some,
            crate::packet::property::props_bytes(packet.spec_props()).len(),
            packet.spec_payload().len(),
        ) <= crate::packet::variable_byte_integer::VBI_MAX
    }

    /// Resolves the topic alias of a received v5.0 PUBLISH: a packet without
    /// a topic name takes the topic its alias is registered for; a topic
    /// name beside an alias registers it. An alias that is missing (without
    /// a topic name), out of range or not registered gives `None`.
    fn resolve_topic_alias_recv(
        &mut self,
        packet: v5_0::publish::GenericPublish<PacketIdType>,
    ) -> (r: Option<v5_0::publish::GenericPublish<PacketIdType>>)
        ensures
            final(self).wf() == old(self).wf(),
            *final(self) == (GenericConnection { topic_alias_recv: final(self).topic_alias_recv, ..*old(self) }),
            packet.spec_topic_name().len() != 0 && first_topic_alias(packet.spec_props()) is None ==> r == Some(packet)
                && *final(self) == *old(self),
            packet.spec_topic_name().len() != 0 && first_topic_alias(packet.spec_props()) is Some ==> ({
                let ta = first_topic_alias(packet.spec_props()).unwrap();
                &&& r is Some <==> old(self).recv_alias_valid(ta)
                &&& r is Some ==> r == Some(packet) && final(self).spec_topic_alias_recv().unwrap()@ == old(self).spec_topic_alias_recv().unwrap()@.insert(ta, packet.spec_topic_name())
            }),
            packet.spec_topic_name().len() == 0 && first_topic_alias(packet.spec_props()) is None ==> r is None,
            packet.spec_topic_name().len() == 0 && first_topic_alias(packet.spec_props()) is Some ==> ({
                let ta = first_topic_alias(packet.spec_props()).unwrap();
                &&& !old(self).recv_alias_valid(ta) || !old(self).spec_topic_alias_recv().unwrap()@.contains_key(ta) ==> r
                    is None
                &&& old(self).recv_alias_valid(ta) && old(self).spec_topic_alias_recv().unwrap()@.contains_key(ta) ==> (r is Some
                    <==> Self::recv_topic_fits(packet, old(self).spec_topic_alias_recv().unwrap()@[ta]))
                &&& r is Some ==> {
                    let p = r.unwrap();
                    &&& p.spec_topic_name() == old(self).spec_topic_alias_recv().unwrap()@[ta]
                    &&& p.spec_payload() == packet.spec_payload()
                    &&& p.spec_props() == packet.spec_props()
                }
            }),
            r matches Some(p) ==> p.spec_fixed_header() == packet.spec_fixed_header() && p.spec_packet_id()
                == packet.spec_packet_id(),
            r is None ==> *final(self) == *old(self),
            packet.spec_topic_name().len() == 0 ==> *final(self) == *old(self),
            packet.spec_topic_name().len() != 0 && first_topic_alias(packet.spec_props()) is Some && r is Some
                ==> final(self).spec_topic_alias_recv() is Some,
    {
        let ta_opt = get_topic_alias_from_props(packet.props());
        let ta = match ta_opt {
            Some(ta) => ta,
            None => {
                if packet.topic_name().is_empty() {
                    return None;
                }
                return Some(packet);
            },
        };
        let valid = match &self.topic_alias_recv {
            Some(tar) => ta != 0 && ta <= tar.max(),
            None => false,
        };
        if !valid {
            return None;
        }
        if packet.topic_name().is_empty() {
            let topic = match &self.topic_alias_recv {
                Some(tar) => match tar.get(ta) {
                    Some(t) => t,
                    None => return None,
                },
                None => return None,
            };
            let tl = topic.as_str().len();
            if tl > 65535 {
                return None;
            }
            let pl = packet.props_size();
            if packet.body_len_with(tl, pl) > crate::packet::variable_byte_integer::VBI_MAX as u64 {
                return None;
            }
            match packet.add_extracted_topic_name(topic.as_str()) {
                Ok(p) => Some(p),
                Err(_) => None,
            }
        } else {
            if let Some(tar) = &mut self.topic_alias_recv {
                tar.insert_or_update(packet.topic_name(), ta);
            }
            Some(packet)
        }
    }

    /// What handling a well-formed v5.0 PUBLISH does (see `handle_v5_0_publish`).
    /// `mid` is this connection once a received PUBLISH with QoS `q` and
    /// identifier `v` is counted: `v` is received (QoS 1 and 2) and handled
    /// (QoS 2); nothing else differs.
    pub open spec fn recv_marked(self, mid: Self, q: u8, v: u32) -> bool {
        &&& mid.wf() == self.wf()
        &&& mid.spec_publish_recv() == (if q != 0 { self.spec_publish_recv().insert(v) } else { self.spec_publish_recv() })
        &&& mid.spec_qos2_publish_handled() == (if q == 2 {
            self.spec_qos2_publish_handled().insert(v)
        } else {
            self.spec_qos2_publish_handled()
        })
        &&& mid.spec_status() == self.spec_status()
        &&& mid.spec_protocol_version() == self.spec_protocol_version()
        &&& mid.spec_pid_used() == self.spec_pid_used()
        &&& mid.spec_pid_suback() == self.spec_pid_suback()
        &&& mid.spec_pid_unsuback() == self.spec_pid_unsuback()
        &&& mid.spec_pid_puback() == self.spec_pid_puback()
        &&& mid.spec_pid_pubrec() == self.spec_pid_pubrec()
        &&& mid.spec_pid_pubcomp() == self.spec_pid_pubcomp()
        &&& mid.spec_need_store() == self.spec_need_store()
        &&& mid.spec_offline_publish() == self.spec_offline_publish()
        &&& mid.spec_auto_pub_response() == self.spec_auto_pub_response()
        &&& mid.spec_auto_ping_response() == self.spec_auto_ping_response()
        &&& mid.spec_auto_map_topic_alias_send() == self.spec_auto_map_topic_alias_send()
        &&& mid.spec_auto_replace_topic_alias_send() == self.spec_auto_replace_topic_alias_send()
        &&& mid.spec_store() == self.spec_store()
        &&& mid.spec_store_packets() == self.spec_store_packets()
        &&& mid.spec_publish_send_max() == self.spec_publish_send_max()
        &&& mid.spec_publish_recv_max() == self.spec_publish_recv_max()
        &&& mid.spec_publish_send_count() == self.spec_publish_send_count()
        &&& mid.spec_maximum_packet_size_send() == self.spec_maximum_packet_size_send()
        &&& mid.spec_maximum_packet_size_recv() == self.spec_maximum_packet_size_recv()
        &&& mid.spec_topic_alias_send() == self.spec_topic_alias_send()
        &&& mid.spec_has_topic_alias_recv() == self.spec_has_topic_alias_recv()
        &&& mid.spec_is_client() == self.spec_is_client()
        &&& mid.spec_pingreq_user_send_interval_ms() == self.spec_pingreq_user_send_interval_ms()
        &&& mid.spec_pingreq_keep_alive_ms() == self.spec_pingreq_keep_alive_ms()
        &&& mid.spec_pingreq_server_keep_alive_ms() == self.spec_pingreq_server_keep_alive_ms()
        &&& mid.spec_pingreq_recv_timeout_ms() == self.spec_pingreq_recv_timeout_ms()
        &&& mid.spec_pingresp_recv_timeout_ms() == self.spec_pingresp_recv_timeout_ms()
        &&& mid.spec_timer_flags() == self.spec_timer_flags()
        &&& mid.spec_topic_alias_recv() == self.spec_topic_alias_recv()
        &&& mid.spec_received() == self.spec_received()
    }

    /// The events of answering a received PUBLISH with `ack`: the packet to
    /// send and the PINGREQ timer, or PacketTooLarge.
    pub open spec fn publish_ack_events(self, ack: ControlPacket<PacketIdType>) -> Seq<GenericEvent<PacketIdType>> {
        if GenericPacket::Control(ack).spec_size() > self.spec_maximum_packet_size_send() {
            seq![GenericEvent::<PacketIdType>::NotifyError(MqttError::PacketTooLarge)]
        } else {
            seq![GenericEvent::RequestSendPacket { packet: GenericPacket::Control(ack), release_packet_id_if_send_error: None }]
                + self.post_process_events()
        }
    }

    /// Whether the topic alias of received `packet` cannot be resolved: a
    /// packet without topic name and without alias, or an alias out of range,
    /// or (without topic name) an alias not registered.
    pub open spec fn recv_alias_fails(self, packet: v5_0::publish::GenericPublish<PacketIdType>) -> bool {
        let ta = first_topic_alias(packet.spec_props());
        if packet.spec_topic_name().len() == 0 {
            ta is None || !self.recv_alias_valid(ta.unwrap()) || !self.spec_topic_alias_recv().unwrap()@.contains_key(ta.unwrap())
        } else {
            ta is Some && !self.recv_alias_valid(ta.unwrap())
        }
    }

    /// What delivering received `packet` as `p` does once its alias resolved.
    pub open spec fn v5_publish_delivered(
        self,
        after: Self,
        packet: v5_0::publish::GenericPublish<PacketIdType>,
        p: v5_0::publish::GenericPublish<PacketIdType>,
        r: Seq<GenericEvent<PacketIdType>>,
    ) -> bool {
        let q = header_qos(packet.spec_fixed_header());
        let id = packet.spec_packet_id().unwrap();
        let v = id.spec_value() as u32;
        let already = q == 2 && self.spec_qos2_publish_handled().contains(v);
        let answers = q != 0 && self.spec_status() == ConnectionStatus::Connected && (self.spec_auto_pub_response() || already);
        let ta = first_topic_alias(packet.spec_props());
        let t = ack_type(q);
        let notify = if already {
            Seq::<GenericEvent<PacketIdType>>::empty()
        } else {
            seq![GenericEvent::NotifyPacketReceived(GenericPacket::V5_0Publish(p))]
        };
        &&& after.spec_status() == self.spec_status()
        &&& p.spec_fixed_header() == packet.spec_fixed_header()
        &&& p.spec_packet_id() == packet.spec_packet_id()
        &&& p.spec_payload() == packet.spec_payload()
        &&& (packet.spec_topic_name().len() != 0 ==> p == packet)
        &&& (packet.spec_topic_name().len() == 0 ==> p.spec_topic_name() == self.spec_topic_alias_recv().unwrap()@[ta.unwrap()]
            && p.spec_props() == packet.spec_props())
        &&& (packet.spec_topic_name().len() != 0 && ta is Some ==> after.spec_topic_alias_recv() is Some
            && after.spec_topic_alias_recv().unwrap()@ == self.spec_topic_alias_recv().unwrap()@.insert(ta.unwrap(), packet.spec_topic_name()))
        &&& (!(packet.spec_topic_name().len() != 0 && ta is Some) ==> after.spec_topic_alias_recv() == self.spec_topic_alias_recv())
        &&& (q == 2 ==> after.spec_qos2_publish_handled() == self.spec_qos2_publish_handled().insert(v))
        &&& (q == 0 ==> after.spec_publish_recv() == self.spec_publish_recv())
        &&& (answers ==> exists|ack: ControlPacket<PacketIdType>|
            #[trigger] Self::is_publish_ack(ack, true, t, id)
                && r == self.publish_ack_events(ack) + self.refresh_events() + notify
                && after.spec_publish_recv() == (if GenericPacket::Control(ack).spec_size() > self.spec_maximum_packet_size_send() {
                    self.spec_publish_recv().insert(v)
                } else {
                    self.spec_publish_recv().insert(v).remove(v)
                }))
        &&& (!answers && q != 0 ==> after.spec_publish_recv() == self.spec_publish_recv().insert(v))
        &&& (!answers ==> r == self.refresh_events() + notify)
    }

    /// What handling a well-formed v5.0 PUBLISH does (see `handle_v5_0_publish`).
    pub open spec fn v5_publish_handle_outcome(self, after: Self, packet: v5_0::publish::GenericPublish<PacketIdType>, r: Seq<GenericEvent<PacketIdType>>) -> bool {
        let q = header_qos(packet.spec_fixed_header());
        let v = packet.spec_packet_id().unwrap().spec_value() as u32;
        &&& (after.wf() == self.wf())
        &&& (q != 0 && self.recv_maximum_reached() ==> self.v5_error_outcome(after, MqttError::ReceiveMaximumExceeded, r))
        &&& (!(q != 0 && self.recv_maximum_reached()) && self.recv_alias_fails(packet) ==> exists|mid: Self|
            #[trigger] self.recv_marked(mid, q, v) && mid.v5_error_outcome(after, MqttError::TopicAliasInvalid, r))
        &&& (!(q != 0 && self.recv_maximum_reached()) && !self.recv_alias_fails(packet) && packet.spec_topic_name().len() != 0
            ==> self.v5_publish_delivered(after, packet, packet, r))
        &&& (!(q != 0 && self.recv_maximum_reached()) && !self.recv_alias_fails(packet) && packet.spec_topic_name().len() == 0
            ==> {
            let t = self.spec_topic_alias_recv().unwrap()@[first_topic_alias(packet.spec_props()).unwrap()];
            &&& !Self::recv_topic_fits(packet, t) ==> exists|mid: Self| #[trigger] self.recv_marked(mid, q, v) && mid.v5_error_outcome(after, MqttError::TopicAliasInvalid, r)
            &&& Self::recv_topic_fits(packet, t) ==> exists|p: v5_0::publish::GenericPublish<PacketIdType>| #[trigger] self.v5_publish_delivered(after, packet, p, r)
        })
    }

    /// Receives a well-formed v5.0 PUBLISH. For QoS 1 and 2 the receive
    /// maximum this side announced is enforced (an error reported to the
    /// peer), and the identifier is counted as received; for QoS 2 it is
    /// also held as handled. The topic alias is resolved (an error,
    /// TopicAliasInvalid, when it cannot be). QoS 1 is answered with a PUBACK
    /// when automatic responses are on and connected; QoS 2 with a PUBREC
    /// when connected and automatic responses are on or the packet was
    /// handled already, and a packet handled already is not told again. The
    /// PINGREQ receive timer restarts.
    #[verifier::rlimit(100)]
    #[verifier::spinoff_prover]
    fn handle_v5_0_publish(&mut self, packet: v5_0::publish::GenericPublish<PacketIdType>) -> (r: Vec<GenericEvent<PacketIdType>>)
        ensures
            old(self).v5_publish_handle_outcome(*final(self), packet, r@),
    {
        let ghost s0 = *self;
        let ghost gp = packet;
        let mut events: Vec<GenericEvent<PacketIdType>> = Vec::new();
        let q = packet.qos().to_u8();
        let mut already_handled = false;
        let mut puback_send = false;
        let mut pubrec_send = false;
        let ghost v: u32 = packet.spec_packet_id().unwrap().spec_value() as u32;
        if q != 0 {
            let packet_id = packet.packet_id().unwrap();
            if let Some(max) = self.publish_recv_max {
                if self.publish_recv.len() >= max as usize {
                    self.handle_v5_0_error(MqttError::ReceiveMaximumExceeded, &mut events);
                    proof { assert(events@.skip(0) =~= events@); }
                    return events;
                }
            }
            self.publish_recv.insert(packet_id.value());
            if q == 1 {
                if self.auto_pub_response && self.status == ConnectionStatus::Connected {
                    puback_send = true;
                }
            } else {
                already_handled = !self.qos2_publish_handled.insert(packet_id.value());
                if self.status == ConnectionStatus::Connected && (self.auto_pub_response || already_handled) {
                    pubrec_send = true;
                }
            }
        }
        let ghost mid = *self;
        proof {
            assert(s0.recv_marked(mid, header_qos(gp.spec_fixed_header()), v));
        }
        let packet = match self.resolve_topic_alias_recv(packet) {
            Some(p) => p,
            None => {
                self.handle_v5_0_error(MqttError::TopicAliasInvalid, &mut events);
                proof {
                    assert(events@.skip(0) =~= events@);
                    assert(s0.recv_marked(mid, header_qos(gp.spec_fixed_header()), v) && mid.v5_error_outcome(
                        *self,
                        MqttError::TopicAliasInvalid,
                        events@,
                    ));
                }
                return events;
            },
        };
        let ghost st1 = *self;
        if puback_send {
            self.send_publish_ack(true, 4u8, packet.packet_id().unwrap(), &mut events);
        }
        if pubrec_send {
            self.send_publish_ack(true, 5u8, packet.packet_id().unwrap(), &mut events);
        }
        let ghost pre = events@;
        let ghost before = *self;
        let mut refresh = self.refresh_pingreq_recv();
        events.append(&mut refresh);
        if !already_handled {
            events.push(GenericEvent::NotifyPacketReceived(GenericPacket::V5_0Publish(packet)));
        }
        proof {
            assert(before.refresh_events() == s0.refresh_events());
            if puback_send || pubrec_send {
                let t = ack_type(header_qos(gp.spec_fixed_header()));
                let ack = choose|ack: ControlPacket<PacketIdType>| #[trigger] Self::is_publish_ack(ack, true, t, gp.spec_packet_id().unwrap())
                    && st1.ack_send_outcome(before, ack, v, false, pre.skip(0));
                assert(pre.skip(0) =~= pre);
                assert(st1.publish_ack_events(ack) == s0.publish_ack_events(ack));
                if already_handled {
                    assert(events@ =~= s0.publish_ack_events(ack) + s0.refresh_events() + Seq::<GenericEvent<PacketIdType>>::empty());
                } else {
                    assert(events@ =~= s0.publish_ack_events(ack) + s0.refresh_events() + seq![
                        GenericEvent::NotifyPacketReceived(GenericPacket::V5_0Publish(packet)),
                    ]);
                }
                assert(Self::is_publish_ack(ack, true, t, gp.spec_packet_id().unwrap()));
            } else {
                assert(pre.len() == 0);
                if already_handled {
                    assert(events@ =~= s0.refresh_events() + Seq::<GenericEvent<PacketIdType>>::empty());
                } else {
                    assert(events@ =~= s0.refresh_events() + seq![
                        GenericEvent::NotifyPacketReceived(GenericPacket::V5_0Publish(packet)),
                    ]);
                }
            }
            assert(s0.v5_publish_delivered(*self, gp, packet, events@));
        }
        events
    }

    /// What receiving a PUBLISH does (see `recv_publish`).
    pub open spec fn publish_recv_outcome(self, after: Self, raw: RawPacket, v5: bool, r: Seq<GenericEvent<PacketIdType>>) -> bool {
        &&& (after.wf() == self.wf())
        &&& (v5 ==> (v5_0::publish::publish_result::<PacketIdType>(raw.spec_fixed_header() & 0x0fu8, raw.spec_data()) matches Err(e)
                ==> if self.spec_status() == ConnectionStatus::Connected {
                self.v5_error_outcome(after, e, r)
            } else {
                r == seq![GenericEvent::<PacketIdType>::NotifyError(e)] && after == self
            }))
        &&& (!v5 ==> (crate::packet::publish_common::topic_pid_result::<PacketIdType>(raw.spec_fixed_header() & 0x0fu8, raw.spec_data())
                is Err ==> r.len() == 2 && r[0] == GenericEvent::<PacketIdType>::RequestClose && r[1] is NotifyError
                && after == self))
        &&& (!v5 && crate::packet::publish_common::topic_pid_result::<PacketIdType>(raw.spec_fixed_header() & 0x0fu8, raw.spec_data())
            is Ok ==> exists|p: v3_1_1::publish::GenericPublish<PacketIdType>|
            #![trigger self.v3_publish_handle_outcome(after, p, r)]
            p.spec_fixed_header() == (0x30u8 | ((raw.spec_fixed_header() & 0x0fu8) & 0x0fu8)) && p.spec_body()
                == raw.spec_data() && self.v3_publish_handle_outcome(after, p, r))
        &&& (v5 && v5_0::publish::publish_result::<PacketIdType>(raw.spec_fixed_header() & 0x0fu8, raw.spec_data()) is Ok
            ==> exists|p: v5_0::publish::GenericPublish<PacketIdType>|
            #![trigger self.v5_publish_handle_outcome(after, p, r)]
            p.spec_fixed_header() == (0x30u8 | ((raw.spec_fixed_header() & 0x0fu8) & 0x0fu8))
                && self.v5_publish_handle_outcome(after, p, r))
    }

    /// Receives a PUBLISH: a malformed one is an error (in v5.0 reported to
    /// the peer only when connected).
    fn recv_publish(&mut self, raw: &RawPacket, v5: bool) -> (r: Vec<GenericEvent<PacketIdType>>)
        requires
            raw.spec_data().len() <= crate::packet::variable_byte_integer::VBI_MAX,
        ensures
            old(self).publish_recv_outcome(*final(self), *raw, v5, r@),
    {
        let mut events: Vec<GenericEvent<PacketIdType>> = Vec::new();
        let flags = raw.flags();
        if v5 {
            match v5_0::publish::GenericPublish::<PacketIdType>::parse(flags, raw.data_as_slice()) {
                Ok((packet, _)) => {
                    let ghost gp = packet;
                    events = self.handle_v5_0_publish(packet);
                    assert(old(self).v5_publish_handle_outcome(*self, gp, events@));
                },
                Err(e) => {
                    if self.status == ConnectionStatus::Connected {
                        self.handle_v5_0_error(e, &mut events);
                        proof { assert(events@.skip(0) =~= events@); }
                    } else {
                        events.push(GenericEvent::NotifyError(e));
                    }
                },
            }
        } else {
            match v3_1_1::publish::GenericPublish::<PacketIdType>::parse(flags, raw.data_as_slice()) {
                Ok((packet, _)) => {
                    let ghost gp = packet;
                    events = self.handle_v3_1_1_publish(packet);
                    assert(old(self).v3_publish_handle_outcome(*self, gp, events@));
                },
                Err(e) => {
                    Self::handle_v3_1_1_error(e, &mut events);
                },
            }
        }
        events
    }


    /// Whether the connection accepts a received packet of type `t` (see
    /// `receivable`).
    fn can_receive(&self, packet_type: u8) -> (r: bool)
        ensures
            r == receivable(Role::spec_kind(), self.spec_protocol_version(), packet_type),
    {
        let kind = Role::kind();
        let v3 = self.protocol_version == Version::V3_1_1;
        let t = packet_type;
        !((kind == RoleKind::Client && (t == 1 || t == 8 || t == 10 || t == 12 || (t == 14 && v3) || (t == 15 && v3)))
            || (kind == RoleKind::Server && (t == 2 || t == 9 || t == 11 || t == 13 || (t == 15 && v3))))
    }

    /// The connection with protocol version `v`.
    pub closed spec fn with_protocol_version(self, v: Version) -> Self {
        GenericConnection { protocol_version: v, ..self }
    }

    /// What handling a received packet does (see `process_recv_packet`).
    pub open spec fn recv_packet_outcome(self, after: Self, raw: RawPacket, r: Seq<GenericEvent<PacketIdType>>) -> bool {
        &&& (after.wf() == self.wf())
        &&& (raw.spec_data().len() > crate::packet::variable_byte_integer::VBI_MAX ==> r == seq![
                GenericEvent::<PacketIdType>::NotifyError(MqttError::MalformedPacket),
            ] && after == self)
        &&& (raw.spec_data().len() <= crate::packet::variable_byte_integer::VBI_MAX && raw.spec_remaining_length()
                <= crate::packet::variable_byte_integer::VBI_MAX ==> {
                let total = spec_total_size(raw.spec_remaining_length() as u32);
                let t = raw.spec_fixed_header() >> 4u8;
                &&& total > self.spec_maximum_packet_size_recv() ==> self.v5_error_outcome(
                    after,
                    MqttError::PacketTooLarge,
                    r,
                )
                &&& total <= self.spec_maximum_packet_size_recv() && !receivable(
                    Role::spec_kind(),
                    self.spec_protocol_version(),
                    t,
                ) ==> r == seq![GenericEvent::<PacketIdType>::NotifyError(MqttError::ProtocolError)] && after
                    == self
                &&& total <= self.spec_maximum_packet_size_recv() && receivable(
                    Role::spec_kind(),
                    self.spec_protocol_version(),
                    t,
                ) && self.spec_protocol_version() == Version::Undetermined ==> {
                    &&& t != 1 ==> r == seq![GenericEvent::<PacketIdType>::NotifyError(MqttError::MalformedPacket)]
                        && after == self
                    &&& t == 1 && raw.spec_data().len() < 7 ==> r == seq![
                        GenericEvent::<PacketIdType>::NotifyError(MqttError::MalformedPacket),
                    ] && after == self
                    &&& t == 1 && raw.spec_data().len() >= 7 && raw.spec_data()[6] != 4 && raw.spec_data()[6] != 5
                        ==> r == seq![GenericEvent::<PacketIdType>::NotifyError(MqttError::UnsupportedProtocolVersion)]
                        && after == self
                    &&& t == 1 && raw.spec_data().len() >= 7 && raw.spec_data()[6] == 4 ==> after.spec_protocol_version() == Version::V3_1_1
                    &&& t == 1 && raw.spec_data().len() >= 7 && raw.spec_data()[6] == 5 ==> after.spec_protocol_version() == Version::V5_0
                }
                &&& total <= self.spec_maximum_packet_size_recv() && receivable(
                    Role::spec_kind(),
                    self.spec_protocol_version(),
                    t,
                ) && (self.spec_protocol_version() == Version::V3_1_1 && (t == 0 || t == 15)
                    || self.spec_protocol_version() == Version::V5_0 && t == 0) ==> r == seq![
                    GenericEvent::<PacketIdType>::NotifyError(MqttError::MalformedPacket),
                ] && after == self
            })
        &&& (raw.spec_data().len() <= crate::packet::variable_byte_integer::VBI_MAX && raw.spec_remaining_length()
                <= crate::packet::variable_byte_integer::VBI_MAX && spec_total_size(raw.spec_remaining_length() as u32)
                <= self.spec_maximum_packet_size_recv() && receivable(
                Role::spec_kind(),
                self.spec_protocol_version(),
                raw.spec_fixed_header() >> 4u8,
            ) ==> {
                let t = raw.spec_fixed_header() >> 4u8;
                let v5 = self.spec_protocol_version() == Version::V5_0;
                let d = raw.spec_data();
                if self.spec_protocol_version() == Version::Undetermined {
                    &&& t == 1 && d.len() >= 7 && d[6] == 4 ==> self.with_protocol_version(Version::V3_1_1).v3_connect_recv_outcome(
                        after,
                        raw,
                        r,
                    )
                    &&& t == 1 && d.len() >= 7 && d[6] == 5 ==> self.with_protocol_version(Version::V5_0).v5_connect_recv_outcome(
                        after,
                        raw,
                        r,
                    )
                } else if t == 1 {
                    if v5 {
                        self.v5_connect_recv_outcome(after, raw, r)
                    } else {
                        self.v3_connect_recv_outcome(after, raw, r)
                    }
                } else if t == 2 {
                    self.connack_recv_outcome(after, raw, v5, r)
                } else if t == 3 {
                    self.publish_recv_outcome(after, raw, v5, r)
                } else if t == 4 || t == 7 || t == 9 || t == 11 {
                    self.response_recv_outcome(after, raw, v5, t, r)
                } else if t == 5 {
                    self.pubrec_recv_outcome(after, raw, v5, r)
                } else if t == 6 {
                    self.pubrel_recv_outcome(after, raw, v5, r)
                } else if t == 8 || t == 10 || (v5 && t == 15) {
                    self.notify_recv_outcome(after, raw, v5, t, r)
                } else if t == 12 {
                    self.pingreq_recv_outcome(after, raw, v5, r)
                } else if t == 13 {
                    self.pingresp_recv_outcome(after, raw, v5, r)
                } else if t == 14 {
                    self.disconnect_recv_outcome(after, raw, v5, r)
                } else {
                    r == seq![GenericEvent::<PacketIdType>::NotifyError(MqttError::MalformedPacket)] && after == self
                }
            })
    }

    /// Handles a received packet: one larger than this side accepts is
    /// answered with DISCONNECT (0x95, Packet too large) and reported; one
    /// the role does not accept is a protocol error; otherwise it goes to
    /// the handling of its type and version. A connection whose version is
    /// not known yet accepts only CONNECT, and takes the version from its
    /// protocol level byte (4 for v3.1.1, 5 for v5.0).
    #[verifier::rlimit(60)]
    fn process_recv_packet(&mut self, raw: RawPacket) -> (r: Vec<GenericEvent<PacketIdType>>)
        ensures
            old(self).recv_packet_outcome(*final(self), raw, r@),
    {
        let mut events: Vec<GenericEvent<PacketIdType>> = Vec::new();
        let len = raw.data_as_slice().len();
        let rl = raw.remaining_length();
        if len > crate::packet::variable_byte_integer::VBI_MAX as usize || rl > crate::packet::variable_byte_integer::VBI_MAX {
            events.push(GenericEvent::NotifyError(MqttError::MalformedPacket));
            return events;
        }
        let total_size = remaining_length_to_total_size(rl);
        if total_size > self.maximum_packet_size_recv {
            self.handle_v5_0_error(MqttError::PacketTooLarge, &mut events);
            proof { assert(events@.skip(0) =~= events@); }
            return events;
        }
        let packet_type = raw.packet_type();
        if !self.can_receive(packet_type) {
            events.push(GenericEvent::NotifyError(MqttError::ProtocolError));
            return events;
        }
        let t = packet_type;
        match self.protocol_version {
            Version::V3_1_1 | Version::V5_0 => {
                let v5 = self.protocol_version == Version::V5_0;
                if t == 1 {
                    if v5 { self.recv_v5_0_connect(&raw) } else { self.recv_v3_1_1_connect(&raw) }
                } else if t == 2 {
                    self.recv_connack(&raw, v5)
                } else if t == 3 {
                    self.recv_publish(&raw, v5)
                } else if t == 4 || t == 7 || t == 9 || t == 11 {
                    self.recv_response(&raw, v5, t)
                } else if t == 5 {
                    self.recv_pubrec(&raw, v5)
                } else if t == 6 {
                    self.recv_pubrel(&raw, v5)
                } else if t == 8 || t == 10 || (v5 && t == 15) {
                    self.recv_notify_only(&raw, v5, t)
                } else if t == 12 {
                    self.recv_pingreq(&raw, v5)
                } else if t == 13 {
                    self.recv_pingresp(&raw, v5)
                } else if t == 14 {
                    self.recv_disconnect(&raw, v5)
                } else {
                    events.push(GenericEvent::NotifyError(MqttError::MalformedPacket));
                    events
                }
            },
            Version::Undetermined => {
                if t != 1 || len < 7 {
                    events.push(GenericEvent::NotifyError(MqttError::MalformedPacket));
                    return events;
                }
                let level = raw.data_as_slice()[6];
                if level == 4 {
                    self.protocol_version = Version::V3_1_1;
                    self.recv_v3_1_1_connect(&raw)
                } else if level == 5 {
                    self.protocol_version = Version::V5_0;
                    self.recv_v5_0_connect(&raw)
                } else {
                    events.push(GenericEvent::NotifyError(MqttError::UnsupportedProtocolVersion));
                    events
                }
            },
        }
    }

    /// The bytes of a packet received in part.
    pub closed spec fn spec_received(&self) -> Seq<u8> {
        self.packet_builder@
    }

    /// Whether `after` differs from this connection in the bytes received
    /// in part at most.
    pub closed spec fn only_received_changed(self, after: Self) -> bool {
        after == (GenericConnection { packet_builder: after.packet_builder, ..self })
    }

    /// What taking bytes `from..to` of `data` does: when they complete a
    /// packet, it is handled; bytes that cannot start a packet close the
    /// connection (the timers are cancelled) and are reported as
    /// MalformedPacket; a packet still incomplete gives no event and takes
    /// every byte.
    #[verifier::opaque]
    pub open spec fn recv_one_outcome(self, after: Self, data: Seq<u8>, from: nat, to: nat, r: Seq<GenericEvent<PacketIdType>>) -> bool {
        let read = data.subrange(from as int, to as int);
        let all = self.spec_received() + read;
        let flags = self.spec_timer_flags();
        &&& from <= to <= data.len()
        &&& after.wf()
        &&& frame_len(all) != Some(all.len()) && frame_invalid(all) ==> r == cancel_events::<PacketIdType>(
            flags.0,
            flags.1,
            flags.2,
        ) + seq![
            GenericEvent::<PacketIdType>::RequestClose,
            GenericEvent::<PacketIdType>::NotifyError(MqttError::MalformedPacket),
        ] && after.spec_received() == Seq::<u8>::empty() && after.spec_timer_flags() == (false, false, false)
        &&& frame_len(all) != Some(all.len()) && !frame_invalid(all) ==> r.len() == 0 && after.spec_received() == all
            && to >= data.len() && self.only_received_changed(after)
        &&& frame_len(all) == Some(all.len()) ==> after.spec_received() == Seq::<u8>::empty()
            && exists|raw: RawPacket, mid: Self, post: Self|
            #![trigger mid.recv_packet_outcome(post, raw, r)]
            {
                &&& self.only_received_changed(mid)
                &&& mid.spec_received() == Seq::<u8>::empty()
                &&& raw.spec_fixed_header() == all[0]
                &&& raw.spec_data() == all.subrange(all.len() - raw.spec_remaining_length(), all.len() as int)
                &&& mid.recv_packet_outcome(post, raw, r)
                &&& post.only_received_changed(after)
            }
    }

    /// Whether taking bytes `from..to` of `data` completes a packet.
    pub open spec fn recv_one_complete(self, data: Seq<u8>, from: nat, to: nat) -> bool {
        let all = self.spec_received() + data.subrange(from as int, to as int);
        frame_len(all) == Some(all.len())
    }

    /// Takes bytes from `data` until one packet is complete, the bytes
    /// cannot start a packet, or `data` is exhausted.
    fn recv_one(&mut self, data: &mut Cursor) -> (r: (Vec<GenericEvent<PacketIdType>>, bool))
        requires
            old(self).wf(),
        ensures
            final(data).spec_data() == old(data).spec_data(),
            old(self).recv_one_outcome(*final(self), old(data).spec_data(), old(data).spec_position(), final(data).spec_position(), r.0@),
            r.1 == old(self).recv_one_complete(old(data).spec_data(), old(data).spec_position(), final(data).spec_position()),
            old(data).spec_position() <= final(data).spec_position() <= final(data).spec_data().len(),
            final(self).wf(),
            r.1 ==> final(self).spec_received() == Seq::<u8>::empty(),
            old(self).spec_received().len() == 0 && old(data).spec_position() < old(data).spec_data().len()
                ==> old(data).spec_position() < final(data).spec_position(),
    {
        reveal(GenericConnection::recv_one_outcome);
        let mut events: Vec<GenericEvent<PacketIdType>> = Vec::new();
        let mut complete = false;
        match self.packet_builder.feed(data) {
            PacketBuildResult::Complete(raw) => {
                let ghost mid = *self;
                let ghost graw = raw;
                let mut pb = PacketBuilder::new();
                std::mem::swap(&mut pb, &mut self.packet_builder);
                proof { assert(*self == (GenericConnection { packet_builder: self.packet_builder, ..mid })); }
                let ghost mid2 = *self;
                events = self.process_recv_packet(raw);
                let ghost post = *self;
                self.packet_builder = pb;
                complete = true;
                assert(mid2.recv_packet_outcome(post, graw, events@));
                assert(post.only_received_changed(*self));
            },
            PacketBuildResult::Incomplete => {},
            PacketBuildResult::Error(e) => {
                let ghost flags = self.spec_timer_flags();
                self.cancel_timers(&mut events);
                events.push(GenericEvent::RequestClose);
                events.push(GenericEvent::NotifyError(e));
                assert(events@ =~= cancel_events::<PacketIdType>(flags.0, flags.1, flags.2) + seq![
                    GenericEvent::<PacketIdType>::RequestClose,
                    GenericEvent::<PacketIdType>::NotifyError(e),
                ]);
            },
        }
        (events, complete)
    }

    /// Takes received bytes from `data` and handles every packet they
    /// complete, in order: the calls go on, each as `recv_one_outcome`
    /// says, while a packet is completed and bytes remain. The events are
    /// those of each step in turn.
    pub fn recv(&mut self, data: &mut Cursor) -> (r: Vec<GenericEvent<PacketIdType>>)
        requires
            old(self).wf(),
        ensures
            final(self).wf(),
            final(data).spec_data() == old(data).spec_data(),
            old(data).spec_position() <= final(data).spec_position(),
            exists|st: Seq<Self>, ps: Seq<nat>, ch: Seq<Seq<GenericEvent<PacketIdType>>>| {
                &&& ch.len() >= 1
                &&& st.len() == ch.len() + 1
                &&& ps.len() == ch.len() + 1
                &&& st[0] == *old(self)
                &&& ps[0] == old(data).spec_position()
                &&& st.last() == *final(self)
                &&& ps.last() == final(data).spec_position()
                &&& r@ == ch.flatten_alt()
                &&& forall|k: int| 0 <= k < ch.len() ==> (#[trigger] st[k]).recv_one_outcome(st[k + 1], old(data).spec_data(), ps[k], ps[k + 1], ch[k])
                &&& forall|k: int| 0 <= k < ch.len() - 1 ==> (#[trigger] st[k]).recv_one_complete(old(data).spec_data(), ps[k], ps[k + 1])
                    && ps[k + 1] < old(data).spec_data().len()
                &&& st[ch.len() - 1].recv_one_complete(old(data).spec_data(), ps[ch.len() - 1], ps[ch.len() as int])
                    ==> ps[ch.len() as int] >= old(data).spec_data().len()
            },
    {
        let ghost d = data.spec_data();
        let ghost mut st: Seq<Self> = seq![*self];
        let ghost mut ps: Seq<nat> = seq![data.spec_position()];
        let ghost mut ch: Seq<Seq<GenericEvent<PacketIdType>>> = Seq::empty();
        let (mut events, mut complete) = self.recv_one(data);
        proof {
            st = st.push(*self);
            ps = ps.push(data.spec_position());
            ch = ch.push(events@);
            assert(ch.drop_last() =~= Seq::<Seq<GenericEvent<PacketIdType>>>::empty());
            assert(ch.drop_last().flatten_alt() =~= Seq::<GenericEvent<PacketIdType>>::empty());
            assert(events@ =~= ch.drop_last().flatten_alt() + ch.last());
        }
        while complete && !data.is_empty()
            invariant
                ch.len() >= 1,
                st.len() == ch.len() + 1,
                ps.len() == ch.len() + 1,
                st[0] == *old(self),
                ps[0] == old(data).spec_position(),
                d == old(data).spec_data(),
                data.spec_data() == d,
                old(data).spec_position() <= data.spec_position(),
                st.last() == *self,
                ps.last() == data.spec_position(),
                events@ == ch.flatten_alt(),
                self.wf(),
                forall|k: int| 0 <= k < ch.len() ==> (#[trigger] st[k]).recv_one_outcome(st[k + 1], d, ps[k], ps[k + 1], ch[k]),
                forall|k: int| 0 <= k < ch.len() - 1 ==> (#[trigger] st[k]).recv_one_complete(d, ps[k], ps[k + 1])
                    && ps[k + 1] < d.len(),
                complete == st[ch.len() - 1].recv_one_complete(d, ps[ch.len() - 1], ps[ch.len() as int]),
                complete ==> self.spec_received() == Seq::<u8>::empty(),
            decreases d.len() - data.spec_position(),
        {
            let ghost p0 = data.spec_position();
            let (mut more, c) = self.recv_one(data);
            proof {
                let all = Seq::<u8>::empty() + d.subrange(p0 as int, data.spec_position() as int);
                if c {
                    assert(all.len() >= 2);
                }
                let ghost old_ch = ch;
                st = st.push(*self);
                ps = ps.push(data.spec_position());
                ch = ch.push(more@);
                assert(ch.drop_last() =~= old_ch);
                assert forall|k: int| 0 <= k < ch.len() implies (#[trigger] st[k]).recv_one_outcome(st[k + 1], d, ps[k], ps[k + 1], ch[k]) by {
                    if k < ch.len() - 1 {
                        assert(old_ch[k] == ch[k]);
                    }
                }
            }
            let ghost ev0 = events@;
            events.append(&mut more);
            complete = c;
            proof {
                assert(events@ =~= ev0 + ch.last());
            }
        }
        events
    }

    /// Whether alias `ta` is registered for sending.
    pub open spec fn send_alias_registered(self, ta: u16) -> bool {
        self.spec_topic_alias_send() matches Some(tas) && exists|i: int|
            0 <= i < tas.spec_entries().len() && tas.spec_entries()[i].0 == ta
    }

    /// Makes a v5.0 PUBLISH fit to be stored: a packet with a topic name
    /// loses its TopicAlias property; one without takes the topic its alias
    /// is registered for (`PacketNotRegulated` when it has no alias or the
    /// alias is not registered, `MalformedPacket` when the topic does not fit).
    pub fn regulate_for_store(
        &self,
        packet: v5_0::publish::GenericPublish<PacketIdType>,
    ) -> (r: Result<v5_0::publish::GenericPublish<PacketIdType>, MqttError>)
        ensures
            packet.spec_topic_name().len() != 0 ==> (r matches Ok(p) && p.spec_topic_name() == packet.spec_topic_name()
                && p.spec_props() == crate::packet::property_check::props_without_topic_alias(packet.spec_props())
                && p.spec_fixed_header() == packet.spec_fixed_header() && p.spec_packet_id() == packet.spec_packet_id()
                && p.spec_payload() == packet.spec_payload()),
            packet.spec_topic_name().len() == 0 && (first_topic_alias(packet.spec_props()) is None || !self.send_alias_registered(
                first_topic_alias(packet.spec_props()).unwrap(),
            )) ==> r == Err::<v5_0::publish::GenericPublish<PacketIdType>, MqttError>(MqttError::PacketNotRegulated),
            packet.spec_topic_name().len() == 0 && r is Ok ==> {
                let p = r->Ok_0;
                &&& first_topic_alias(packet.spec_props()) is Some
                &&& exists|i: int|
                    0 <= i < self.spec_topic_alias_send().unwrap().spec_entries().len()
                        && self.spec_topic_alias_send().unwrap().spec_entries()[i] == (
                        first_topic_alias(packet.spec_props()).unwrap(),
                        p.spec_topic_name(),
                    )
                &&& p.spec_props() == crate::packet::property_check::props_without_topic_alias(packet.spec_props())
                &&& p.spec_fixed_header() == packet.spec_fixed_header()
                &&& p.spec_packet_id() == packet.spec_packet_id()
                &&& p.spec_payload() == packet.spec_payload()
            },
            r matches Err(e) ==> e == MqttError::PacketNotRegulated || e == MqttError::MalformedPacket,
            forall|i: int| #![trigger self.spec_topic_alias_send().unwrap().spec_entries()[i]]
                packet.spec_topic_name().len() == 0 && first_topic_alias(packet.spec_props()) is Some
                && self.spec_topic_alias_send() is Some
                && 0 <= i < self.spec_topic_alias_send().unwrap().spec_entries().len()
                && self.spec_topic_alias_send().unwrap().spec_entries()[i].0 == first_topic_alias(packet.spec_props()).unwrap()
                ==> {
                let t = self.spec_topic_alias_send().unwrap().spec_entries()[i].1;
                let tl = vstd::utf8::encode_utf8(t).len();
                r is Ok <==> (!crate::packet::publish_common::has_wildcard(t) && tl <= 65535
                    && v5_0::publish::publish_body_len::<PacketIdType>(
                    tl,
                    packet.spec_packet_id() is Some,
                    crate::packet::property::props_bytes(crate::packet::property_check::props_without_topic_alias(packet.spec_props())).len(),
                    packet.spec_payload().len(),
                ) <= crate::packet::variable_byte_integer::VBI_MAX)
            },
    {
        if !packet.topic_name().is_empty() {
            return Ok(packet.remove_topic_alias());
        }
        let ta = match get_topic_alias_from_props(packet.props()) {
            Some(ta) => ta,
            None => return Err(MqttError::PacketNotRegulated),
        };
        let topic = match &self.topic_alias_send {
            Some(tas) => match tas.peek(ta) {
                Some(t) => t,
                None => return Err(MqttError::PacketNotRegulated),
            },
            None => return Err(MqttError::PacketNotRegulated),
        };
        let tl = topic.as_str().len();
        if tl > 65535 {
            return Err(MqttError::MalformedPacket);
        }
        let pl = packet.props_size_without_topic_alias();
        if packet.body_len_with(tl, pl) > crate::packet::variable_byte_integer::VBI_MAX as u64 {
            return Err(MqttError::MalformedPacket);
        }
        packet.remove_topic_alias_add_topic(topic.as_str())
    }

    /// Registers the identifier of a packet being restored and adds the
    /// packet to the store; an identifier in use already is skipped.
    fn restore_one(&mut self, packet: GenericStorePacket<PacketIdType>)
        requires
            packet.wf(),
        ensures
            final(self).wf() == old(self).wf(),
            final(self).spec_pid_used() == (if packet.spec_packet_id().spec_value() != 0 {
                old(self).spec_pid_used().insert(packet.spec_packet_id().spec_value() as u32)
            } else {
                old(self).spec_pid_used()
            }),
            !old(self).spec_pid_used().contains(packet.spec_packet_id().spec_value() as u32)
                && packet.spec_packet_id().spec_value() != 0 && !old(self).spec_store().contains(
                crate::connection::store::store_key(packet),
            ) ==> final(self).spec_store() == old(self).spec_store().push(crate::connection::store::store_key(packet)),
            old(self).spec_pid_used().contains(packet.spec_packet_id().spec_value() as u32)
                ==> final(self).spec_store() == old(self).spec_store(),
            final(self).spec_status() == old(self).spec_status(),
            ({
                let v = packet.spec_packet_id().spec_value();
                let key = crate::connection::store::store_key(packet);
                (final(self).spec_pid_used(), final(self).spec_store()) == (if v != 0 && !old(self).spec_pid_used().contains(v as u32) {
                    (old(self).spec_pid_used().insert(v as u32), if old(self).spec_store().contains(key) {
                        old(self).spec_store()
                    } else {
                        old(self).spec_store().push(key)
                    })
                } else {
                    (old(self).spec_pid_used(), old(self).spec_store())
                })
            }),
            *final(self) == (GenericConnection { pid_man: final(self).pid_man, store: final(self).store, ..*old(self) }),
    {
        let packet_id = packet.packet_id();
        if self.pid_man.register_id(packet_id).is_ok() {
            let _ = self.store.add(packet);
        } else {
            proof {
                if packet_id.spec_value() != 0 {
                    assert(old(self).spec_pid_used().insert(packet_id.spec_value() as u32) =~= old(self).spec_pid_used());
                }
            }
        }
    }

    /// Restores stored packets, such as those `get_stored_packets` gave: for
    /// each PUBLISH with QoS 1 or 2 and each PUBREL, the identifier waits for
    /// its PUBACK, PUBREC or PUBCOMP, is registered, and the packet is
    /// stored; one whose identifier is in use already is not stored again.
    /// A PUBLISH with QoS 0 is skipped.
    pub fn restore_packets(&mut self, packets: Vec<GenericStorePacket<PacketIdType>>)
        ensures
            final(self).wf() == old(self).wf(),
            final(self).spec_status() == old(self).spec_status(),
            forall|i: int|
                0 <= i < packets@.len() && (#[trigger] packets@[i]).wf() && packets@[i].spec_packet_id().spec_value() != 0
                    ==> final(self).spec_pid_used().contains(packets@[i].spec_packet_id().spec_value() as u32),
            old(self).spec_pid_used().subset_of(final(self).spec_pid_used()),
            (final(self).spec_pid_used(), final(self).spec_store()) == restore_fold(packets@, old(self).spec_pid_used(), old(self).spec_store()),
            final(self).spec_pid_puback() == old(self).spec_pid_puback().union(waiting_ids(packets@, 1)),
            final(self).spec_pid_pubrec() == old(self).spec_pid_pubrec().union(waiting_ids(packets@, 2)),
            final(self).spec_pid_pubcomp() == old(self).spec_pid_pubcomp().union(waiting_ids(packets@, 3)),
    {
        let mut i: usize = 0;
        proof {
            assert(packets@.take(0) =~= Seq::<GenericStorePacket<PacketIdType>>::empty());
            assert forall|k: u8| waiting_ids(packets@.take(0), k) =~= Set::<u32>::empty() by {}
            assert(old(self).spec_pid_puback().union(waiting_ids(packets@.take(0), 1)) =~= old(self).spec_pid_puback());
            assert(old(self).spec_pid_pubrec().union(waiting_ids(packets@.take(0), 2)) =~= old(self).spec_pid_pubrec());
            assert(old(self).spec_pid_pubcomp().union(waiting_ids(packets@.take(0), 3)) =~= old(self).spec_pid_pubcomp());
        }
        while i < packets.len()
            invariant
                i <= packets@.len(),
                self.wf() == old(self).wf(),
                self.spec_status() == old(self).spec_status(),
                old(self).spec_pid_used().subset_of(self.spec_pid_used()),
                (self.spec_pid_used(), self.spec_store()) == restore_fold(packets@.take(i as int), old(self).spec_pid_used(), old(self).spec_store()),
                self.spec_pid_puback() == old(self).spec_pid_puback().union(waiting_ids(packets@.take(i as int), 1)),
                self.spec_pid_pubrec() == old(self).spec_pid_pubrec().union(waiting_ids(packets@.take(i as int), 2)),
                self.spec_pid_pubcomp() == old(self).spec_pid_pubcomp().union(waiting_ids(packets@.take(i as int), 3)),
                forall|k: int|
                    0 <= k < i && (#[trigger] packets@[k]).wf() && packets@[k].spec_packet_id().spec_value() != 0
                        ==> self.spec_pid_used().contains(packets@[k].spec_packet_id().spec_value() as u32),
            decreases packets@.len() - i,
        {
            let ok = match &packets[i] {
                GenericStorePacket::V3_1_1Publish(x) => {
                    let q = x.qos().to_u8();
                    if q == 1 {
                        self.pid_puback.insert(x.packet_id().unwrap().value());
                    } else if q == 2 {
                        self.pid_pubrec.insert(x.packet_id().unwrap().value());
                    }
                    q != 0
                },
                GenericStorePacket::V5_0Publish(x) => {
                    let q = x.qos().to_u8();
                    if q == 1 {
                        self.pid_puback.insert(x.packet_id().unwrap().value());
                    } else if q == 2 {
                        self.pid_pubrec.insert(x.packet_id().unwrap().value());
                    }
                    q != 0
                },
                GenericStorePacket::V3_1_1Pubrel(x) => {
                    if x.packet_type() == 6 && !x.is_v5() {
                        self.pid_pubcomp.insert(x.packet_id().unwrap().value());
                        true
                    } else {
                        false
                    }
                },
                GenericStorePacket::V5_0Pubrel(x) => {
                    if x.packet_type() == 6 && x.is_v5() {
                        self.pid_pubcomp.insert(x.packet_id().unwrap().value());
                        true
                    } else {
                        false
                    }
                },
            };
            if ok {
                let p = packets[i].duplicate();
                self.restore_one(p);
            }
            proof {
                assert(packets@.take(i + 1).drop_last() =~= packets@.take(i as int));
                assert(packets@.take(i + 1).last() == packets@[i as int]);
                lemma_waiting_ids_step(packets@, i as int, 1);
                lemma_waiting_ids_step(packets@, i as int, 2);
                lemma_waiting_ids_step(packets@, i as int, 3);
                assert(self.spec_pid_puback() =~= old(self).spec_pid_puback().union(waiting_ids(packets@.take(i + 1), 1)));
                assert(self.spec_pid_pubrec() =~= old(self).spec_pid_pubrec().union(waiting_ids(packets@.take(i + 1), 2)));
                assert(self.spec_pid_pubcomp() =~= old(self).spec_pid_pubcomp().union(waiting_ids(packets@.take(i + 1), 3)));
            }
            proof {
                assert forall|k: int|
                    0 <= k < i + 1 && (#[trigger] packets@[k]).wf() && packets@[k].spec_packet_id().spec_value() != 0
                        implies self.spec_pid_used().contains(packets@[k].spec_packet_id().spec_value() as u32) by {
                    if k == i {
                        assert(ok);
                    }
                }
            }
            i = i + 1;
        }
        proof {
            assert(packets@.take(i as int) =~= packets@);
        }
    }


    /// Whether the connection plays the client side.
    pub fn is_client(&self) -> (r: bool)
        ensures
            r == self.spec_is_client(),
    {
        self.is_client
    }

    /// How many PUBLISH packets with QoS 1 or 2 sent wait for their
    /// acknowledgement, counted against the peer's receive maximum.
    pub fn publish_send_count(&self) -> (r: u16)
        ensures
            r == self.spec_publish_send_count(),
    {
        self.publish_send_count
    }

    /// The peer's receive maximum, once known.
    pub fn publish_send_max(&self) -> (r: Option<u16>)
        ensures
            r == self.spec_publish_send_max(),
    {
        self.publish_send_max
    }

    /// The receive maximum this side announced, if any.
    pub fn publish_recv_max(&self) -> (r: Option<u16>)
        ensures
            r == self.spec_publish_recv_max(),
    {
        self.publish_recv_max
    }

    /// Whether packets are stored for retransmission.
    pub fn need_store(&self) -> (r: bool)
        ensures
            r == self.spec_need_store(),
    {
        self.need_store
    }

    /// The largest packet the peer accepts.
    pub fn maximum_packet_size_send(&self) -> (r: u32)
        ensures
            r == self.spec_maximum_packet_size_send(),
    {
        self.maximum_packet_size_send
    }

    /// The identifiers of SUBSCRIBE packets waiting for their SUBACK.
    pub fn pid_suback(&self) -> (r: Vec<u32>)
        ensures
            r@.to_set() == self.spec_pid_suback(),
            r@.no_duplicates(),
    {
        self.pid_suback.values()
    }

    /// The identifiers of UNSUBSCRIBE packets waiting for their UNSUBACK.
    pub fn pid_unsuback(&self) -> (r: Vec<u32>)
        ensures
            r@.to_set() == self.spec_pid_unsuback(),
            r@.no_duplicates(),
    {
        self.pid_unsuback.values()
    }

    pub closed spec fn with_publish_send_count(self, v: u16) -> Self {
        GenericConnection { publish_send_count: v, ..self }
    }

    /// Sets the count of PUBLISH packets waiting for their acknowledgement.
    pub fn set_publish_send_count(&mut self, count: u16)
        ensures
            *final(self) == old(self).with_publish_send_count(count),
            final(self).spec_publish_send_count() == count,
            final(self).wf() == old(self).wf(),
    {
        self.publish_send_count = count;
    }

    pub closed spec fn with_need_store(self, v: bool) -> Self {
        GenericConnection { need_store: v, ..self }
    }

    /// Sets whether packets are stored for retransmission.
    pub fn set_need_store(&mut self, enable: bool)
        ensures
            *final(self) == old(self).with_need_store(enable),
            final(self).spec_need_store() == enable,
            final(self).wf() == old(self).wf(),
    {
        self.need_store = enable;
    }

    pub closed spec fn with_maximum_packet_size_send(self, v: u32) -> Self {
        GenericConnection { maximum_packet_size_send: v, ..self }
    }

    /// Sets the largest packet the peer accepts.
    pub fn set_maximum_packet_size_send(&mut self, size: u32)
        ensures
            *final(self) == old(self).with_maximum_packet_size_send(size),
            final(self).spec_maximum_packet_size_send() == size,
            final(self).wf() == old(self).wf(),
    {
        self.maximum_packet_size_send = size;
    }

    /// Sets the topic aliases for sending, as a CONNACK would.
    pub fn set_topic_alias_send(&mut self, topic_alias_send: Option<TopicAliasSend>)
        ensures
            old(self).only_topic_alias_send_changed(*final(self)),
            final(self).spec_topic_alias_send() == topic_alias_send,
            final(self).wf() == old(self).wf(),
    {
        self.topic_alias_send = topic_alias_send;
    }

    /// Records that a SUBSCRIBE with identifier `id` waits for its SUBACK.
    pub fn add_pid_suback(&mut self, id: u32)
        ensures
            final(self).spec_pid_suback() == old(self).spec_pid_suback().insert(id),
            final(self).wf() == old(self).wf(),
    {
        self.pid_suback.insert(id);
    }

    /// Records that an UNSUBSCRIBE with identifier `id` waits for its UNSUBACK.
    pub fn add_pid_unsuback(&mut self, id: u32)
        ensures
            final(self).spec_pid_unsuback() == old(self).spec_pid_unsuback().insert(id),
            final(self).wf() == old(self).wf(),
    {
        self.pid_unsuback.insert(id);
    }


    /// Sends a packet, as `send` does; the role's checks apply to the packet
    /// as given.
    pub fn checked_send(&mut self, packet: GenericPacket<PacketIdType>) -> (r: Vec<GenericEvent<PacketIdType>>)
        ensures
            old(self).send_outcome(*final(self), packet, r@),
    {
        self.send(packet)
    }

}

} // verus!
