use vstd::prelude::*;
use vstd::string::StringSliceAdditionalSpecFns;
use vstd::slice::slice_subrange;
use crate::packet::bytes::{append_bytes, be16, be16_value, copy_bytes, lemma_be16_of_value, lemma_be16_roundtrip, u16_from_be, u16_to_be};
use crate::packet::error::MqttError;

verus! {

/// MQTT Binary Data: the data preceded by its length as a big-endian `u16`.
///
/// The encoded form (length prefix and data) is held as one buffer, so that
/// it can be written to the network without copying.
#[derive(PartialEq, Eq, Debug)]
pub enum MqttBinary {
    Large(Vec<u8>),
}

/// Length-prefixed encoding of a byte sequence shorter than 65536 bytes.
pub open spec fn length_prefixed(data: Seq<u8>) -> Seq<u8> {
    be16(data.len()) + data
}

/// Whether `bytes` start with a complete length-prefixed field.
pub open spec fn has_length_prefixed(bytes: Seq<u8>) -> bool {
    bytes.len() >= 2 && bytes.len() >= 2 + be16_value(bytes[0], bytes[1])
}

/// Number of bytes of the length-prefixed field at the front of `bytes`.
pub open spec fn length_prefixed_size(bytes: Seq<u8>) -> nat {
    2 + be16_value(bytes[0], bytes[1])
}

/// The data of the length-prefixed field at the front of `bytes`.
pub open spec fn length_prefixed_data(bytes: Seq<u8>) -> Seq<u8> {
    bytes.subrange(2, length_prefixed_size(bytes) as int)
}

pub proof fn lemma_length_prefixed_roundtrip(data: Seq<u8>, rest: Seq<u8>)
    requires
        data.len() <= 65535,
    ensures
        has_length_prefixed(length_prefixed(data) + rest),
        length_prefixed_size(length_prefixed(data) + rest) == data.len() + 2,
        length_prefixed_data(length_prefixed(data) + rest) == data,
        (length_prefixed(data) + rest).subrange(0, data.len() + 2int) == length_prefixed(data),
{
    let s = length_prefixed(data) + rest;
    lemma_be16_roundtrip(data.len());
    assert(s[0] == be16(data.len())[0]);
    assert(s[1] == be16(data.len())[1]);
    assert(length_prefixed_data(s) =~= data);
    assert(s.subrange(0, data.len() + 2int) =~= length_prefixed(data));
}

pub proof fn lemma_length_prefixed_of_prefix(bytes: Seq<u8>)
    requires
        has_length_prefixed(bytes),
    ensures
        bytes.subrange(0, length_prefixed_size(bytes) as int) == length_prefixed(
            length_prefixed_data(bytes),
        ),
        length_prefixed_data(bytes).len() <= 65535,
{
    lemma_be16_of_value(bytes[0], bytes[1]);
    assert(bytes.subrange(0, length_prefixed_size(bytes) as int) =~= length_prefixed(
        length_prefixed_data(bytes),
    ));
}

impl MqttBinary {
    /// The encoded buffer (length prefix followed by the data).
    pub open spec fn encoded(&self) -> Seq<u8> {
        match self {
            MqttBinary::Large(e) => e@,
        }
    }

    /// The encoded buffer is a length prefix matching the data after it.
    pub open spec fn wf(&self) -> bool {
        let e = self.encoded();
        &&& e.len() >= 2
        &&& e.len() <= 65537
        &&& be16_value(e[0], e[1]) == e.len() - 2
    }

    /// Create a new MqttBinary from binary data
    pub fn new(data: &[u8]) -> (r: Result<MqttBinary, MqttError>)
        ensures
            data@.len() <= 65535 <==> r is Ok,
            r matches Ok(b) ==> b.wf() && b@ == data@,
            r matches Err(e) ==> e == MqttError::MalformedPacket,
    {
        if data.len() > 65535 {
            return Err(MqttError::MalformedPacket);
        }
        let len = data.len() as u16;
        let prefix = u16_to_be(len);
        let mut encoded: Vec<u8> = Vec::with_capacity(2 + data.len());
        encoded.push(prefix[0]);
        encoded.push(prefix[1]);
        append_bytes(&mut encoded, data);
        proof {
            lemma_be16_roundtrip(data@.len());
            assert(encoded@.subrange(2, encoded@.len() as int) =~= data@);
        }
        Ok(MqttBinary::Large(encoded))
    }

    /// Get the complete encoded byte sequence including length prefix
    pub fn as_bytes(&self) -> (r: &[u8])
        requires
            self.wf(),
        ensures
            r@ == self.encoded(),
            r@ == length_prefixed(self@),
    {
        proof { self.lemma_encoded(); }
        match self {
            MqttBinary::Large(encoded) => encoded.as_slice(),
        }
    }

    /// Get only the binary data without the length prefix
    pub fn as_slice(&self) -> (r: &[u8])
        requires
            self.wf(),
        ensures
            r@ == self@,
    {
        match self {
            MqttBinary::Large(encoded) => slice_subrange(encoded.as_slice(), 2, encoded.len()),
        }
    }

    /// Get the length of the binary data in bytes
    pub fn len(&self) -> (r: usize)
        requires
            self.wf(),
        ensures
            r == self@.len(),
            r <= 65535,
    {
        match self {
            MqttBinary::Large(encoded) => encoded.len() - 2,
        }
    }

    /// Check if the binary data is empty
    pub fn is_empty(&self) -> (r: bool)
        requires
            self.wf(),
        ensures
            r == (self@.len() == 0),
    {
        self.len() == 0
    }

    /// Get the total encoded size including the length field
    pub fn size(&self) -> (r: usize)
        requires
            self.wf(),
        ensures
            r == self@.len() + 2,
            r <= 65537,
    {
        match self {
            MqttBinary::Large(encoded) => encoded.len(),
        }
    }

    /// The encoded form as a list of buffers to write in order: one buffer
    /// holding the length prefix and the data.
    pub fn to_buffers(&self) -> (r: Vec<&[u8]>)
        requires
            self.wf(),
        ensures
            r@.len() == 1,
            r@[0]@ == self.encoded(),
    {
        let mut v: Vec<&[u8]> = Vec::new();
        v.push(self.as_bytes());
        v
    }

    /// Create a continuous buffer containing the complete packet data
    pub fn to_continuous_buffer(&self) -> (r: Vec<u8>)
        requires
            self.wf(),
        ensures
            r@ == length_prefixed(self@),
    {
        copy_bytes(self.as_bytes())
    }

    /// A copy with the same contents.
    pub fn duplicate(&self) -> (r: MqttBinary)
        requires
            self.wf(),
        ensures
            r.wf(),
            r.encoded() == self.encoded(),
            r@ == self@,
    {
        match self {
            MqttBinary::Large(encoded) => MqttBinary::Large(copy_bytes(encoded.as_slice())),
        }
    }

    /// Parse binary data from a byte sequence
    pub fn decode(data: &[u8]) -> (r: Result<(MqttBinary, usize), MqttError>)
        ensures
            has_length_prefixed(data@) <==> r is Ok,
            r matches Ok((b, n)) ==> b.wf() && n == length_prefixed_size(data@) && b@
                == length_prefixed_data(data@),
            r matches Err(e) ==> e == MqttError::MalformedPacket,
    {
        if data.len() < 2 {
            return Err(MqttError::MalformedPacket);
        }
        let data_len = u16_from_be(data[0], data[1]) as usize;
        if data.len() < 2 + data_len {
            return Err(MqttError::MalformedPacket);
        }
        let encoded = copy_bytes(slice_subrange(data, 0, 2 + data_len));
        proof {
            assert(encoded@.subrange(2, encoded@.len() as int) =~= length_prefixed_data(data@));
        }
        Ok((MqttBinary::Large(encoded), 2 + data_len))
    }

    pub proof fn lemma_encoded(&self)
        requires
            self.wf(),
        ensures
            self.encoded() == length_prefixed(self@),
    {
        let e = self.encoded();
        lemma_be16_of_value(e[0], e[1]);
        assert(self.encoded() =~= length_prefixed(self@));
    }
}

impl View for MqttBinary {
    type V = Seq<u8>;

    open spec fn view(&self) -> Seq<u8> {
        self.encoded().subrange(2, self.encoded().len() as int)
    }
}

impl Default for MqttBinary {
    fn default() -> (r: MqttBinary)
        ensures
            r.wf(),
            r@ == Seq::<u8>::empty(),
    {
        let mut encoded: Vec<u8> = Vec::new();
        encoded.push(0);
        encoded.push(0);
        let r = MqttBinary::Large(encoded);
        assert(r@ =~= Seq::<u8>::empty());
        r
    }
}

impl Clone for MqttBinary {
    fn clone(&self) -> (r: MqttBinary)
        ensures
            r.encoded() == self.encoded(),
    {
        match self {
            MqttBinary::Large(encoded) => MqttBinary::Large(copy_bytes(encoded.as_slice())),
        }
    }
}

impl MqttBinary {
    /// The data bytes, without the length prefix.
    fn data_slice(&self) -> (r: &[u8])
        ensures
            self.wf() ==> r@ == self@,
    {
        match self {
            MqttBinary::Large(encoded) => if encoded.len() >= 2 {
                slice_subrange(encoded.as_slice(), 2, encoded.len())
            } else {
                slice_subrange(encoded.as_slice(), 0, 0)
            },
        }
    }
}

impl AsRef<[u8]> for MqttBinary {
    fn as_ref(&self) -> (r: &[u8])
        ensures
            self.wf() ==> r@ == self@,
    {
        self.data_slice()
    }
}

impl core::ops::Deref for MqttBinary {
    type Target = [u8];

    fn deref(&self) -> (r: &[u8])
        ensures
            self.wf() ==> r@ == self@,
    {
        self.data_slice()
    }
}

impl<'a> TryFrom<&'a str> for MqttBinary {
    type Error = MqttError;

    fn try_from(s: &'a str) -> (r: Result<MqttBinary, MqttError>)
        ensures
            s.spec_bytes().len() <= 65535 <==> r is Ok,
            r matches Ok(b) ==> b.wf() && b@ == s.spec_bytes(),
            r matches Err(e) ==> e == MqttError::MalformedPacket,
    {
        MqttBinary::new(s.as_bytes())
    }
}

/// The conversion is `new` on the string's bytes, whose contract states it;
/// no spec-level result is claimed here.
impl<'a> vstd::std_specs::convert::TryFromSpecImpl<&'a str> for MqttBinary {
    open spec fn obeys_try_from_spec() -> bool {
        false
    }

    open spec fn try_from_spec(s: &'a str) -> Result<MqttBinary, MqttError> {
        Err(MqttError::MalformedPacket)
    }
}

/// Decoding what `new` encodes gives back the data and consumes the whole encoding.
pub proof fn lemma_binary_roundtrip(b: MqttBinary, rest: Seq<u8>)
    requires
        b.wf(),
    ensures
        has_length_prefixed(b.encoded() + rest),
        length_prefixed_size(b.encoded() + rest) == b.encoded().len(),
        length_prefixed_data(b.encoded() + rest) == b@,
{
    b.lemma_encoded();
    lemma_length_prefixed_roundtrip(b@, rest);
}

} // verus!
