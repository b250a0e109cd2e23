use vstd::prelude::*;
use vstd::slice::slice_subrange;
use vstd::utf8::{decode_utf8, encode_utf8, valid_utf8};
use vstd::string::StringSliceAdditionalSpecFns;
use vstd::std_specs::iter::IteratorSpec;
use crate::packet::bytes::{append_bytes, be16_value, copy_bytes, lemma_be16_of_value, lemma_be16_roundtrip, u16_from_be, u16_to_be};
use crate::packet::mqtt_binary::{has_length_prefixed, length_prefixed, length_prefixed_data, length_prefixed_size, lemma_length_prefixed_roundtrip};
use crate::packet::error::MqttError;

verus! {

broadcast use {vstd::string::axiom_spec_iter, vstd::string::next_postcondition, vstd::utf8::encode_utf8_valid_utf8, vstd::utf8::encode_utf8_decode_utf8, vstd::utf8::decode_utf8_encode_utf8};

/// `core::str::from_utf8`: the bytes as a string slice when they are valid
/// UTF-8. The contract claims that it succeeds exactly on valid UTF-8 and
/// that the slice it returns encodes to the same bytes.
#[verifier::external_body]
fn str_from_utf8(bytes: &[u8]) -> (r: Option<&str>)
    ensures
        r is Some <==> valid_utf8(bytes@),
        r matches Some(s) ==> s.spec_bytes() == bytes@,
{
    match core::str::from_utf8(bytes) {
        Ok(s) => Some(s),
        Err(_) => None,
    }
}

/// The characters of a string slice, in order.
pub fn str_chars(s: &str) -> (r: Vec<char>)
    ensures
        r@ == s@,
{
    let mut r: Vec<char> = Vec::new();
    let mut chars = s.chars();
    loop
        invariant
            r@ + chars.remaining() == s@,
            chars.decrease() is Some,
        ensures
            r@ == s@,
        decreases chars.decrease()->0,
    {
        let ghost before = chars.remaining();
        match chars.next() {
            Some(c) => {
                r.push(c);
                assert(r@ + chars.remaining() =~= s@);
            },
            None => {
                assert(r@ =~= s@);
                break;
            },
        }
    }
    r
}

/// Whether `a[start..start + b.len()]` equals `b`.
fn chars_match_at(a: &Vec<char>, start: usize, b: &Vec<char>) -> (r: bool)
    requires
        start + b@.len() <= a@.len(),
    ensures
        r == (a@.subrange(start as int, start + b@.len()) == b@),
{
    let alen = a.len();
    let mut i: usize = 0;
    while i < b.len()
        invariant
            alen == a@.len(),
            start + b@.len() <= a@.len(),
            i <= b@.len(),
            forall|j: int| 0 <= j < i ==> a@[start + j] == b@[j],
        decreases b@.len() - i,
    {
        if a[start + i] != b[i] {
            assert(a@.subrange(start as int, start + b@.len())[i as int] != b@[i as int]);
            return false;
        }
        i = i + 1;
    }
    assert(a@.subrange(start as int, start + b@.len()) =~= b@);
    true
}

/// MQTT UTF-8 Encoded String: UTF-8 data preceded by its byte length as a
/// big-endian `u16`.
///
/// The encoded form (length prefix and data) is held as one buffer, so that
/// it can be written to the network without copying.
#[derive(PartialEq, Eq, Debug)]
pub enum MqttString {
    Large(Vec<u8>),
}

impl MqttString {
    /// The encoded buffer (length prefix followed by the UTF-8 data).
    pub open spec fn encoded(&self) -> Seq<u8> {
        match self {
            MqttString::Large(e) => e@,
        }
    }

    /// The UTF-8 bytes of the string.
    pub open spec fn bytes(&self) -> Seq<u8> {
        self.encoded().subrange(2, self.encoded().len() as int)
    }

    /// The encoded buffer is a length prefix matching valid UTF-8 data after it.
    pub open spec fn wf(&self) -> bool {
        let e = self.encoded();
        &&& e.len() >= 2
        &&& e.len() <= 65537
        &&& be16_value(e[0], e[1]) == e.len() - 2
        &&& valid_utf8(self.bytes())
    }

    pub proof fn lemma_encoded(&self)
        requires
            self.wf(),
        ensures
            self.encoded() == length_prefixed(self.bytes()),
            self@ == decode_utf8(self.bytes()),
            encode_utf8(self@) == self.bytes(),
    {
        let e = self.encoded();
        lemma_be16_of_value(e[0], e[1]);
        assert(self.encoded() =~= length_prefixed(self.bytes()));
    }

    /// Create a new MqttString from a string slice; `MalformedPacket` when its
    /// UTF-8 encoding is longer than 65,535 bytes.
    pub fn new(s: &str) -> (r: Result<MqttString, MqttError>)
        ensures
            s.spec_bytes().len() <= 65535 <==> r is Ok,
            r matches Ok(m) ==> m.wf() && m@ == s@ && m.bytes() == s.spec_bytes(),
            r matches Err(e) ==> e == MqttError::MalformedPacket,
    {
        let data = s.as_bytes();
        if data.len() > 65535 {
            return Err(MqttError::MalformedPacket);
        }
        let len = data.len() as u16;
        let prefix = u16_to_be(len);
        let mut encoded: Vec<u8> = Vec::with_capacity(2 + data.len());
        encoded.push(prefix[0]);
        encoded.push(prefix[1]);
        append_bytes(&mut encoded, data);
        proof {
            lemma_be16_roundtrip(data@.len());
            assert(encoded@.subrange(2, encoded@.len() as int) =~= data@);
        }
        Ok(MqttString::Large(encoded))
    }

    /// Get the complete encoded byte sequence including length prefix
    pub fn as_bytes(&self) -> (r: &[u8])
        requires
            self.wf(),
        ensures
            r@ == self.encoded(),
            r@ == length_prefixed(self.bytes()),
    {
        proof { self.lemma_encoded(); }
        match self {
            MqttString::Large(encoded) => encoded.as_slice(),
        }
    }

    /// The UTF-8 data without the length prefix.
    pub fn data_bytes(&self) -> (r: &[u8])
        requires
            self.wf(),
        ensures
            r@ == self.bytes(),
    {
        match self {
            MqttString::Large(encoded) => slice_subrange(encoded.as_slice(), 2, encoded.len()),
        }
    }

    /// Get the string as a string slice
    pub fn as_str(&self) -> (r: &str)
        requires
            self.wf(),
        ensures
            r@ == self@,
            r.spec_bytes() == self.bytes(),
    {
        proof { self.lemma_encoded(); }
        match str_from_utf8(self.data_bytes()) {
            Some(s) => s,
            None => {
                assert(false);
                ""
            },
        }
    }

    /// Get the length of the string in bytes
    pub fn len(&self) -> (r: usize)
        requires
            self.wf(),
        ensures
            r == self.bytes().len(),
            r <= 65535,
    {
        match self {
            MqttString::Large(encoded) => encoded.len() - 2,
        }
    }

    /// Check if the string is empty
    pub fn is_empty(&self) -> (r: bool)
        requires
            self.wf(),
        ensures
            r == (self.bytes().len() == 0),
            r == (self@.len() == 0),
    {
        proof {
            self.lemma_encoded();
            if self@.len() == 0 {
                assert(encode_utf8(self@) =~= Seq::<u8>::empty());
            }
        }
        self.len() == 0
    }

    /// Get the total encoded size including the length field
    pub fn size(&self) -> (r: usize)
        requires
            self.wf(),
        ensures
            r == self.bytes().len() + 2,
            r <= 65537,
    {
        match self {
            MqttString::Large(encoded) => encoded.len(),
        }
    }

    /// The encoded form as a list of buffers to write in order: one buffer
    /// holding the length prefix and the data.
    pub fn to_buffers(&self) -> (r: Vec<&[u8]>)
        requires
            self.wf(),
        ensures
            r@.len() == 1,
            r@[0]@ == self.encoded(),
    {
        let mut v: Vec<&[u8]> = Vec::new();
        v.push(self.as_bytes());
        v
    }

    /// Create a continuous buffer containing the complete encoded data
    pub fn to_continuous_buffer(&self) -> (r: Vec<u8>)
        requires
            self.wf(),
        ensures
            r@ == length_prefixed(self.bytes()),
    {
        copy_bytes(self.as_bytes())
    }

    /// A copy with the same contents.
    pub fn duplicate(&self) -> (r: MqttString)
        requires
            self.wf(),
        ensures
            r.wf(),
            r.encoded() == self.encoded(),
            r@ == self@,
    {
        match self {
            MqttString::Large(encoded) => MqttString::Large(copy_bytes(encoded.as_slice())),
        }
    }

    /// Parse an MQTT string from a byte sequence; `MalformedPacket` when the
    /// bytes are too short for the length they announce or are not UTF-8.
    pub fn decode(data: &[u8]) -> (r: Result<(MqttString, usize), MqttError>)
        ensures
            (has_length_prefixed(data@) && valid_utf8(length_prefixed_data(data@))) <==> r is Ok,
            r matches Ok((m, n)) ==> m.wf() && n == length_prefixed_size(data@) && m.bytes()
                == length_prefixed_data(data@),
            r matches Err(e) ==> e == MqttError::MalformedPacket,
    {
        if data.len() < 2 {
            return Err(MqttError::MalformedPacket);
        }
        let string_len = u16_from_be(data[0], data[1]) as usize;
        if data.len() < 2 + string_len {
            return Err(MqttError::MalformedPacket);
        }
        if str_from_utf8(slice_subrange(data, 2, 2 + string_len)).is_none() {
            return Err(MqttError::MalformedPacket);
        }
        let encoded = copy_bytes(slice_subrange(data, 0, 2 + string_len));
        proof {
            assert(encoded@.subrange(2, encoded@.len() as int) =~= length_prefixed_data(data@));
        }
        Ok((MqttString::Large(encoded), 2 + string_len))
    }

    /// Whether the string contains the character `c`.
    pub fn contains(&self, c: char) -> (r: bool)
        requires
            self.wf(),
        ensures
            r == self@.contains(c),
    {
        let chars = str_chars(self.as_str());
        let mut i: usize = 0;
        while i < chars.len()
            invariant
                chars@ == self@,
                i <= chars@.len(),
                forall|j: int| 0 <= j < i ==> chars@[j] != c,
            decreases chars@.len() - i,
        {
            if chars[i] == c {
                assert(self@[i as int] == c);
                return true;
            }
            i = i + 1;
        }
        false
    }

    /// Whether the string begins with `prefix`.
    pub fn starts_with(&self, prefix: &str) -> (r: bool)
        requires
            self.wf(),
        ensures
            r == (prefix@.len() <= self@.len() && self@.subrange(0, prefix@.len() as int) == prefix@),
    {
        let chars = str_chars(self.as_str());
        let p = str_chars(prefix);
        if p.len() > chars.len() {
            return false;
        }
        chars_match_at(&chars, 0, &p)
    }

    /// Whether the string ends with `suffix`.
    pub fn ends_with(&self, suffix: &str) -> (r: bool)
        requires
            self.wf(),
        ensures
            r == (suffix@.len() <= self@.len() && self@.subrange(
                self@.len() - suffix@.len(),
                self@.len() as int,
            ) == suffix@),
    {
        let chars = str_chars(self.as_str());
        let p = str_chars(suffix);
        if p.len() > chars.len() {
            return false;
        }
        chars_match_at(&chars, chars.len() - p.len(), &p)
    }
}

impl View for MqttString {
    type V = Seq<char>;

    open spec fn view(&self) -> Seq<char> {
        decode_utf8(self.bytes())
    }
}

impl Default for MqttString {
    fn default() -> (r: MqttString)
        ensures
            r.wf(),
            r.bytes() == Seq::<u8>::empty(),
            r@ == Seq::<char>::empty(),
    {
        let mut encoded: Vec<u8> = Vec::new();
        encoded.push(0);
        encoded.push(0);
        let r = MqttString::Large(encoded);
        assert(r.bytes() =~= Seq::<u8>::empty());
        r
    }
}

impl Clone for MqttString {
    fn clone(&self) -> (r: MqttString)
        ensures
            r.encoded() == self.encoded(),
    {
        match self {
            MqttString::Large(encoded) => MqttString::Large(copy_bytes(encoded.as_slice())),
        }
    }
}

/// Decoding the encoding of a string gives back the same characters and
/// consumes exactly the encoding.
pub proof fn lemma_string_roundtrip(m: MqttString, rest: Seq<u8>)
    requires
        m.wf(),
    ensures
        has_length_prefixed(m.encoded() + rest),
        length_prefixed_size(m.encoded() + rest) == m.encoded().len(),
        length_prefixed_data(m.encoded() + rest) == m.bytes(),
        valid_utf8(length_prefixed_data(m.encoded() + rest)),
{
    m.lemma_encoded();
    lemma_length_prefixed_roundtrip(m.bytes(), rest);
}


/// Conversion into an `MqttString`.
pub trait IntoMqttString: Sized {
    /// Whether the conversion succeeds.
    spec fn spec_fits(&self) -> bool;

    /// Whether `m` is what the conversion gives.
    spec fn spec_converted(&self, m: MqttString) -> bool;

    fn into_mqtt_string(self) -> (r: Result<MqttString, MqttError>)
        ensures
            r is Ok <==> self.spec_fits(),
            r matches Ok(m) ==> self.spec_converted(m),
            r matches Err(e) ==> e == MqttError::MalformedPacket,
    ;
}

/// A string slice converts when its UTF-8 encoding is at most 65,535 bytes
/// long.
impl<'a> IntoMqttString for &'a str {
    open spec fn spec_fits(&self) -> bool {
        (*self).spec_bytes().len() <= 65535
    }

    open spec fn spec_converted(&self, m: MqttString) -> bool {
        m.wf() && m@ == (*self)@ && m.bytes() == (*self).spec_bytes()
    }

    fn into_mqtt_string(self) -> (r: Result<MqttString, MqttError>) {
        MqttString::new(self)
    }
}

/// A `String` converts as its string slice does.
impl IntoMqttString for String {
    open spec fn spec_fits(&self) -> bool {
        vstd::utf8::encode_utf8(self@).len() <= 65535
    }

    open spec fn spec_converted(&self, m: MqttString) -> bool {
        m.wf() && m@ == self@ && m.bytes() == vstd::utf8::encode_utf8(self@)
    }

    fn into_mqtt_string(self) -> (r: Result<MqttString, MqttError>) {
        MqttString::new(self.as_str())
    }
}

/// An `MqttString` is itself.
impl IntoMqttString for MqttString {
    open spec fn spec_fits(&self) -> bool {
        true
    }

    open spec fn spec_converted(&self, m: MqttString) -> bool {
        m == *self
    }

    fn into_mqtt_string(self) -> (r: Result<MqttString, MqttError>) {
        Ok(self)
    }
}

} // verus!
