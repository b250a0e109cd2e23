use vstd::prelude::*;
use crate::packet::bytes::tail;
use crate::packet::error::MqttError;
use crate::packet::mqtt_binary::MqttBinary;
use crate::packet::mqtt_string::MqttString;
use crate::packet::property::{binary_field_result, string_field_result};
use crate::packet::qos::Qos;

verus! {

/// Clean Session / Clean Start flag (bit 1).
pub open spec fn flag_clean(f: u8) -> bool {
    f & 0x02 != 0
}

/// Will flag (bit 2).
pub open spec fn flag_will(f: u8) -> bool {
    f & 0x04 != 0
}

/// Will QoS (bits 3-4); the value 3 reads as QoS 0.
pub open spec fn flag_will_qos(f: u8) -> Qos {
    let v = (f >> 3) & 0x03;
    if v == 1 {
        Qos::AtLeastOnce
    } else if v == 2 {
        Qos::ExactlyOnce
    } else {
        Qos::AtMostOnce
    }
}

/// Will Retain flag (bit 5).
pub open spec fn flag_will_retain(f: u8) -> bool {
    f & 0x20 != 0
}

/// Password flag (bit 6).
pub open spec fn flag_password(f: u8) -> bool {
    f & 0x40 != 0
}

/// User Name flag (bit 7).
pub open spec fn flag_user_name(f: u8) -> bool {
    f & 0x80 != 0
}

/// `s` when `b` holds, nothing otherwise.
pub open spec fn opt_bytes(b: bool, s: Seq<u8>) -> Seq<u8> {
    if b {
        s
    } else {
        Seq::<u8>::empty()
    }
}

/// The bytes of `d` from `c` on.
pub open spec fn skip_bytes(d: Seq<u8>, c: nat) -> Seq<u8> {
    d.subrange(c as int, d.len() as int)
}

/// Protocol name field of a CONNECT packet: length 4, then "MQTT".
pub open spec fn protocol_name_bytes() -> Seq<u8> {
    seq![0x00u8, 0x04u8, 0x4Du8, 0x51u8, 0x54u8, 0x54u8]
}

/// Outcome of checking the fixed part of a CONNECT variable header (protocol
/// name, level, flags and keep alive: ten bytes) for protocol level `version`.
pub open spec fn connect_header_result(d: Seq<u8>, version: u8) -> Result<(), MqttError> {
    if d.len() < 6 {
        Err(MqttError::MalformedPacket)
    } else if d.subrange(0, 6) != protocol_name_bytes() {
        Err(MqttError::ProtocolError)
    } else if d.len() < 7 {
        Err(MqttError::MalformedPacket)
    } else if d[6] != version {
        Err(MqttError::UnsupportedProtocolVersion)
    } else if d.len() < 10 {
        Err(MqttError::MalformedPacket)
    } else {
        Ok(())
    }
}

/// Outcome of parsing the client identifier at `c`.
pub open spec fn client_id_result(d: Seq<u8>, c: nat) -> Result<nat, MqttError> {
    match string_field_result(skip_bytes(d, c)) {
        Err(_) => Err(MqttError::ClientIdentifierNotValid),
        Ok(n) => Ok(c + n),
    }
}

/// Outcome of parsing the will topic and will payload at `c` (when the will
/// flag is set).
pub open spec fn will_fields_result(d: Seq<u8>, flags: u8, c: nat) -> Result<nat, MqttError> {
    if flag_will(flags) {
        match string_field_result(skip_bytes(d, c)) {
            Err(e) => Err(e),
            Ok(n) => match binary_field_result(skip_bytes(d, c + n)) {
                Err(e) => Err(e),
                Ok(m) => Ok(c + n + m),
            },
        }
    } else {
        Ok(c)
    }
}

/// Outcome of parsing the user name and password at `c` (each when its flag
/// is set), and of checking that a password comes with a user name.
pub open spec fn credentials_result(d: Seq<u8>, flags: u8, c: nat) -> Result<nat, MqttError> {
    let after_user = if flag_user_name(flags) {
        match string_field_result(skip_bytes(d, c)) {
            Err(_) => Err(MqttError::BadUserNameOrPassword),
            Ok(n) => Ok(c + n),
        }
    } else {
        Ok(c)
    };
    match after_user {
        Err(e) => Err(e),
        Ok(c1) => {
            let after_pwd = if flag_password(flags) {
                match binary_field_result(skip_bytes(d, c1)) {
                    Err(_) => Err(MqttError::BadUserNameOrPassword),
                    Ok(n) => Ok(c1 + n),
                }
            } else {
                Ok(c1)
            };
            match after_pwd {
                Err(e) => Err(e),
                Ok(c2) => if flag_password(flags) && !flag_user_name(flags) {
                    Err(MqttError::ProtocolError)
                } else {
                    Ok(c2)
                },
            }
        },
    }
}

pub proof fn lemma_subrange_concat(d: Seq<u8>, a: int, b: int, c: int)
    requires
        0 <= a <= b <= c <= d.len(),
    ensures
        d.subrange(a, c) == d.subrange(a, b) + d.subrange(b, c),
{
    assert(d.subrange(a, c) =~= d.subrange(a, b) + d.subrange(b, c));
}

pub proof fn lemma_skip_prefix(d: Seq<u8>, a: nat, n: nat)
    requires
        a + n <= d.len(),
    ensures
        skip_bytes(d, a).subrange(0, n as int) == d.subrange(a as int, (a + n) as int),
{
    assert(skip_bytes(d, a).subrange(0, n as int) =~= d.subrange(a as int, (a + n) as int));
}

/// Checks the protocol name, level and the length of the fixed variable header.
pub fn parse_connect_header(data: &[u8], version: u8) -> (r: Result<(), MqttError>)
    ensures
        r == connect_header_result(data@, version),
{
    if data.len() < 6 {
        return Err(MqttError::MalformedPacket);
    }
    let ok_name = data[0] == 0x00 && data[1] == 0x04 && data[2] == 0x4D && data[3] == 0x51
        && data[4] == 0x54 && data[5] == 0x54;
    if !ok_name {
        proof {
            if data@.subrange(0, 6) == protocol_name_bytes() {
                assert(data@[0] == data@.subrange(0, 6)[0]);
                assert(data@[1] == data@.subrange(0, 6)[1]);
                assert(data@[2] == data@.subrange(0, 6)[2]);
                assert(data@[3] == data@.subrange(0, 6)[3]);
                assert(data@[4] == data@.subrange(0, 6)[4]);
                assert(data@[5] == data@.subrange(0, 6)[5]);
            }
        }
        return Err(MqttError::ProtocolError);
    }
    assert(data@.subrange(0, 6) =~= protocol_name_bytes());
    if data.len() < 7 {
        return Err(MqttError::MalformedPacket);
    }
    if data[6] != version {
        return Err(MqttError::UnsupportedProtocolVersion);
    }
    if data.len() < 10 {
        return Err(MqttError::MalformedPacket);
    }
    Ok(())
}

/// Parses the client identifier at `cursor`.
pub fn parse_client_id(data: &[u8], cursor: usize) -> (r: Result<(MqttString, usize), MqttError>)
    requires
        cursor <= data@.len(),
    ensures
        r is Ok <==> client_id_result(data@, cursor as nat) is Ok,
        r matches Err(e) ==> client_id_result(data@, cursor as nat) == Err::<nat, MqttError>(e),
        r matches Ok((s, c)) ==> client_id_result(data@, cursor as nat) == Ok::<nat, MqttError>(c as nat)
            && s.wf() && c <= data@.len() && s.encoded() == data@.subrange(cursor as int, c as int),
{
    let len = data.len();
    match MqttString::decode(tail(data, cursor)) {
        Ok((s, n)) => {
            proof {
                crate::packet::mqtt_binary::lemma_length_prefixed_of_prefix(skip_bytes(data@, cursor as nat));
                s.lemma_encoded();
                lemma_skip_prefix(data@, cursor as nat, n as nat);
            }
            Ok((s, cursor + n))
        },
        Err(_) => Err(MqttError::ClientIdentifierNotValid),
    }
}

/// Parses the will topic and payload at `cursor` when the will flag is set;
/// empty values otherwise.
pub fn parse_will_fields(data: &[u8], flags: u8, cursor: usize) -> (r: Result<
    (MqttString, MqttBinary, usize),
    MqttError,
>)
    requires
        cursor <= data@.len(),
    ensures
        r is Ok <==> will_fields_result(data@, flags, cursor as nat) is Ok,
        r matches Err(e) ==> will_fields_result(data@, flags, cursor as nat) == Err::<nat, MqttError>(e),
        r matches Ok((t, p, c)) ==> will_fields_result(data@, flags, cursor as nat) == Ok::<
            nat,
            MqttError,
        >(c as nat) && t.wf() && p.wf() && c <= data@.len() && data@.subrange(cursor as int, c as int)
            == opt_bytes(flag_will(flags), t.encoded() + p.encoded()) && (!flag_will(flags)
            ==> t.bytes().len() == 0 && p@.len() == 0),
{
    let len = data.len();
    if (flags & 0x04) != 0 {
        let (t, n) = MqttString::decode(tail(data, cursor))?;
        proof {
            crate::packet::mqtt_binary::lemma_length_prefixed_of_prefix(skip_bytes(data@, cursor as nat));
            t.lemma_encoded();
            lemma_skip_prefix(data@, cursor as nat, n as nat);
        }
        let c1 = cursor + n;
        let (p, m) = MqttBinary::decode(tail(data, c1))?;
        proof {
            crate::packet::mqtt_binary::lemma_length_prefixed_of_prefix(skip_bytes(data@, c1 as nat));
            p.lemma_encoded();
            lemma_skip_prefix(data@, c1 as nat, m as nat);
            lemma_subrange_concat(data@, cursor as int, c1 as int, (c1 + m) as int);
        }
        Ok((t, p, c1 + m))
    } else {
        proof { assert(data@.subrange(cursor as int, cursor as int) =~= Seq::<u8>::empty()); }
        Ok((MqttString::default(), MqttBinary::default(), cursor))
    }
}

/// Parses the user name and password at `cursor` (each when its flag is set)
/// and checks that a password comes with a user name.
pub fn parse_credentials(data: &[u8], flags: u8, cursor: usize) -> (r: Result<
    (MqttString, MqttBinary, usize),
    MqttError,
>)
    requires
        cursor <= data@.len(),
    ensures
        r is Ok <==> credentials_result(data@, flags, cursor as nat) is Ok,
        r matches Err(e) ==> credentials_result(data@, flags, cursor as nat) == Err::<nat, MqttError>(e),
        r matches Ok((u, p, c)) ==> credentials_result(data@, flags, cursor as nat) == Ok::<
            nat,
            MqttError,
        >(c as nat) && u.wf() && p.wf() && c <= data@.len() && data@.subrange(cursor as int, c as int)
            == opt_bytes(flag_user_name(flags), u.encoded()) + opt_bytes(flag_password(flags), p.encoded())
            && (!flag_user_name(flags) ==> u.bytes().len() == 0) && (!flag_password(flags) ==> p@.len()
            == 0),
{
    let len = data.len();
    let user_name_flag = (flags & 0x80) != 0;
    let mut c = cursor;
    let mut user = MqttString::default();
    if user_name_flag {
        match MqttString::decode(tail(data, c)) {
            Ok((u, n)) => {
                proof {
                    crate::packet::mqtt_binary::lemma_length_prefixed_of_prefix(skip_bytes(data@, c as nat));
                    u.lemma_encoded();
                    lemma_skip_prefix(data@, c as nat, n as nat);
                }
                user = u;
                c = c + n;
            },
            Err(_) => return Err(MqttError::BadUserNameOrPassword),
        }
    } else {
        assert(data@.subrange(cursor as int, cursor as int) =~= Seq::<u8>::empty());
    }
    let c1 = c;
    let password_flag = (flags & 0x40) != 0;
    let mut pwd = MqttBinary::default();
    if password_flag {
        match MqttBinary::decode(tail(data, c)) {
            Ok((p, n)) => {
                proof {
                    crate::packet::mqtt_binary::lemma_length_prefixed_of_prefix(skip_bytes(data@, c as nat));
                    p.lemma_encoded();
                    lemma_skip_prefix(data@, c as nat, n as nat);
                }
                pwd = p;
                c = c + n;
            },
            Err(_) => return Err(MqttError::BadUserNameOrPassword),
        }
    } else {
        assert(data@.subrange(c1 as int, c1 as int) =~= Seq::<u8>::empty());
    }
    if password_flag && !user_name_flag {
        return Err(MqttError::ProtocolError);
    }
    proof {
        lemma_subrange_concat(data@, cursor as int, c1 as int, c as int);
    }
    Ok((user, pwd, c))
}

/// Dropping `x` from the front of `x + t` leaves `t`.
pub proof fn lemma_skip_more(d: Seq<u8>, c: nat, x: Seq<u8>, t: Seq<u8>)
    requires
        c <= d.len(),
        skip_bytes(d, c) == x + t,
    ensures
        skip_bytes(d, c + x.len()) == t,
{
    assert(skip_bytes(d, c).len() == d.len() - c);
    assert(c + x.len() <= d.len());
    assert forall|i: int| 0 <= i < t.len() implies skip_bytes(d, c + x.len())[i] == t[i] by {
        assert(skip_bytes(d, c)[x.len() + i] == (x + t)[x.len() + i]);
        assert(skip_bytes(d, c)[x.len() + i] == d[c + x.len() + i]);
        assert(skip_bytes(d, c + x.len())[i] == d[c + x.len() + i]);
    }
    assert(skip_bytes(d, c + x.len()) =~= t);
}

pub proof fn lemma_skip_head(h: Seq<u8>, x: Seq<u8>)
    ensures
        skip_bytes(h + x, h.len()) == x,
{
    assert(skip_bytes(h + x, h.len()) =~= x);
}

pub proof fn lemma_client_id_roundtrip(d: Seq<u8>, c: nat, id: MqttString, t: Seq<u8>)
    requires
        id.wf(),
        c <= d.len(),
        skip_bytes(d, c) == id.encoded() + t,
    ensures
        client_id_result(d, c) == Ok::<nat, MqttError>(c + id.encoded().len()),
        skip_bytes(d, c + id.encoded().len()) == t,
{
    crate::packet::mqtt_string::lemma_string_roundtrip(id, t);
    lemma_skip_more(d, c, id.encoded(), t);
}

pub proof fn lemma_will_fields_roundtrip(
    d: Seq<u8>,
    f: u8,
    c: nat,
    topic: MqttString,
    payload: MqttBinary,
    t: Seq<u8>,
)
    requires
        topic.wf(),
        payload.wf(),
        c <= d.len(),
        skip_bytes(d, c) == opt_bytes(flag_will(f), topic.encoded() + payload.encoded()) + t,
    ensures
        will_fields_result(d, f, c) == Ok::<nat, MqttError>(
            c + opt_bytes(flag_will(f), topic.encoded() + payload.encoded()).len(),
        ),
        skip_bytes(d, c + opt_bytes(flag_will(f), topic.encoded() + payload.encoded()).len()) == t,
{
    let w = opt_bytes(flag_will(f), topic.encoded() + payload.encoded());
    if flag_will(f) {
        assert(skip_bytes(d, c) =~= topic.encoded() + (payload.encoded() + t));
        crate::packet::mqtt_string::lemma_string_roundtrip(topic, payload.encoded() + t);
        lemma_skip_more(d, c, topic.encoded(), payload.encoded() + t);
        crate::packet::mqtt_binary::lemma_binary_roundtrip(payload, t);
    }
    lemma_skip_more(d, c, w, t);
}

pub proof fn lemma_credentials_roundtrip(
    d: Seq<u8>,
    f: u8,
    c: nat,
    user: MqttString,
    pwd: MqttBinary,
    t: Seq<u8>,
)
    requires
        user.wf(),
        pwd.wf(),
        c <= d.len(),
        !(flag_password(f) && !flag_user_name(f)),
        skip_bytes(d, c) == opt_bytes(flag_user_name(f), user.encoded()) + opt_bytes(
            flag_password(f),
            pwd.encoded(),
        ) + t,
    ensures
        credentials_result(d, f, c) == Ok::<nat, MqttError>(
            c + opt_bytes(flag_user_name(f), user.encoded()).len() + opt_bytes(
                flag_password(f),
                pwd.encoded(),
            ).len(),
        ),
{
    let u = opt_bytes(flag_user_name(f), user.encoded());
    let p = opt_bytes(flag_password(f), pwd.encoded());
    assert(skip_bytes(d, c) =~= u + (p + t));
    if flag_user_name(f) {
        crate::packet::mqtt_string::lemma_string_roundtrip(user, p + t);
    }
    lemma_skip_more(d, c, u, p + t);
    if flag_password(f) {
        crate::packet::mqtt_binary::lemma_binary_roundtrip(pwd, t);
    }
}

} // verus!
