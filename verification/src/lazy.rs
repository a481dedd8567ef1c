use vstd::prelude::*;

use base64::Engine;
use serde::de::DeserializeOwned;
use serde::Serialize;

verus! {

/// The error of decoding MessagePack (`rmp_serde::decode::Error`).
#[verifier::external_type_specification]
#[verifier::external_body]
pub struct ExDecodeError(rmp_serde::decode::Error);

/// The error of encoding MessagePack (`rmp_serde::encode::Error`).
#[verifier::external_type_specification]
#[verifier::external_body]
pub struct ExEncodeError(rmp_serde::encode::Error);

/// Calls `rmp_serde::decode::from_slice`. Nothing is claimed of what it decodes: that
/// rests on `T`'s `Deserialize`.
#[verifier::external_body]
fn deserialize_lazy<T: DeserializeOwned>(bytes: &[u8]) -> Result<T, rmp_serde::decode::Error> {
    rmp_serde::decode::from_slice(bytes)
}

/// Calls `rmp_serde::encode::to_vec_named`. Nothing is claimed of the bytes: they rest on
/// `T`'s `Serialize`.
#[verifier::external_body]
fn serialize_lazy<T: Serialize>(inner: &T) -> Result<Vec<u8>, rmp_serde::encode::Error> {
    rmp_serde::encode::to_vec_named(inner)
}

/// The URL-safe base64 text of bytes, without padding.
pub uninterp spec fn base64url_encode(bytes: Seq<u8>) -> Seq<char>;

/// The bytes of a URL-safe base64 text without padding; `None` when it is not one.
pub uninterp spec fn base64url_decode(text: Seq<char>) -> Option<Seq<u8>>;

/// Calls `URL_SAFE_NO_PAD.encode` of `base64`. Claims: the text is the named encoding,
/// and decoding it gives the bytes back. (It panics only where the encoded length would
/// overflow `usize`, which no slice, at most `isize::MAX` bytes long, reaches.)
#[verifier::external_body]
fn encode_base64url(bytes: &[u8]) -> (text: String)
    ensures
        text@ == base64url_encode(bytes@),
        base64url_decode(text@) == Some(bytes@),
{
    base64::engine::general_purpose::URL_SAFE_NO_PAD.encode(bytes)
}

/// Calls `URL_SAFE_NO_PAD.decode` of `base64`. Claims: the result is the named decoding,
/// `None` where the text is refused.
#[verifier::external_body]
fn decode_base64url(text: &str) -> (bytes: Option<Vec<u8>>)
    ensures
        match base64url_decode(text@) {
            Some(b) => bytes matches Some(v) && v@ == b,
            None => bytes is None,
        },
{
    base64::engine::general_purpose::URL_SAFE_NO_PAD.decode(text).ok()
}

/// A lazily (de)serialized value: it holds either the MessagePack bytes of a `T` or the
/// `T` itself, never both and never neither. It only deserializes when asked to, and
/// only serializes when asked for its bytes.
pub struct Lazy<T> {
    bytes: Option<Vec<u8>>,
    inner: Option<T>,
}

impl<T> Lazy<T> {
    /// Every lazy value holds exactly one of bytes and value (a type invariant, which
    /// `use_type_invariant` gives for any lazy value).
    #[verifier::type_invariant]
    pub open spec fn holds_one(self) -> bool {
        self.stored_bytes() is Some != self.value() is Some
    }

    /// The bytes it holds, when it is not deserialized.
    pub closed spec fn stored_bytes(self) -> Option<Seq<u8>> {
        match self.bytes {
            Some(b) => Some(b@),
            None => None,
        }
    }

    /// The value it holds, when it is deserialized.
    pub closed spec fn value(self) -> Option<T> {
        self.inner
    }

    /// Whether it holds its value rather than bytes.
    pub open spec fn deserialized(self) -> bool {
        self.value() is Some
    }

    /// A lazy value holding bytes; nothing is deserialized.
    pub fn from_bytes(bytes: Vec<u8>) -> (l: Self)
        ensures
            l.stored_bytes() == Some(bytes@),
            l.value() is None,
    {
        Lazy { bytes: Some(bytes), inner: None }
    }

    /// A lazy value holding the value; nothing is serialized.
    pub fn from_inner(inner: T) -> (l: Self)
        ensures
            l.value() == Some(inner),
            l.stored_bytes() is None,
    {
        Lazy { bytes: None, inner: Some(inner) }
    }

    /// The value, where it is held.
    pub fn inner_ref(&self) -> (r: Option<&T>)
        ensures
            match self.value() {
                Some(v) => r matches Some(x) && *x == v,
                None => r is None,
            },
    {
        self.inner.as_ref()
    }

    /// The bytes, where they are held.
    pub fn bytes_ref(&self) -> (r: Option<&[u8]>)
        ensures
            match self.stored_bytes() {
                Some(b) => r matches Some(x) && x@ == b,
                None => r is None,
            },
    {
        match &self.bytes {
            Some(b) => Some(b.as_slice()),
            None => None,
        }
    }

    /// Whether the value is deserialized (so that [`Lazy::inner`] and [`Lazy::take`]
    /// cannot fail).
    pub fn is_deserialized(&self) -> (b: bool)
        ensures
            b == self.deserialized(),
    {
        self.inner.is_some()
    }
}

impl<T: DeserializeOwned> Lazy<T> {
    /// A reference to the value. Bytes are deserialized first and then discarded; when
    /// they cannot be deserialized, the decoding error is returned and the bytes are kept.
    pub fn try_inner(&mut self) -> (r: Result<&T, rmp_serde::decode::Error>)
        ensures
            old(self).deserialized() ==> *final(self) == *old(self) && r is Ok,
            r is Ok ==> final(self).deserialized() && final(self).stored_bytes() is None
                && *r->Ok_0 == final(self).value()->0,
            r is Err ==> *final(self) == *old(self),
    {
        proof {
            use_type_invariant(&*self);
        }
        let decoded = match &self.bytes {
            Some(bytes) => Some(deserialize_lazy::<T>(bytes.as_slice())),
            None => None,
        };
        match decoded {
            Some(Ok(inner)) => {
                *self = Lazy { bytes: None, inner: Some(inner) };
            },
            Some(Err(e)) => {
                return Err(e);
            },
            None => {},
        }
        proof {
            use_type_invariant(&*self);
        }
        Ok(self.inner.as_ref().unwrap())
    }

    /// The value, moved out: deserialized from the bytes when that is what is held.
    pub fn try_take(self) -> (r: Result<T, rmp_serde::decode::Error>)
        ensures
            self.deserialized() ==> r == Ok::<T, rmp_serde::decode::Error>(self.value()->0),
    {
        proof {
            use_type_invariant(&self);
        }
        match self.bytes {
            Some(bytes) => deserialize_lazy::<T>(bytes.as_slice()),
            None => Ok(self.inner.unwrap()),
        }
    }

    /// A reference to the value, deserializing held bytes first as [`Lazy::try_inner`]
    /// does; bytes that do not decode are reported as the decoding error.
    pub fn inner(&mut self) -> (r: Result<&T, rmp_serde::decode::Error>)
        ensures
            old(self).deserialized() ==> *final(self) == *old(self) && r is Ok,
            r is Ok ==> final(self).deserialized() && final(self).stored_bytes() is None
                && *r->Ok_0 == final(self).value()->0,
            r is Err ==> *final(self) == *old(self),
    {
        self.try_inner()
    }

    /// The value, moved out, deserializing held bytes as [`Lazy::try_take`] does; bytes
    /// that do not decode are reported as the decoding error.
    pub fn take(self) -> (r: Result<T, rmp_serde::decode::Error>)
        ensures
            self.deserialized() ==> r == Ok::<T, rmp_serde::decode::Error>(self.value()->0),
    {
        self.try_take()
    }
}

impl<T: Serialize> Lazy<T> {
    /// The bytes of the value: a deserialized value is serialized to MessagePack (with
    /// field names), kept as bytes and discarded as a value; held bytes are returned as
    /// they are. A failing serialization leaves it unchanged.
    pub fn bytes(&mut self) -> (r: Result<&[u8], rmp_serde::encode::Error>)
        ensures
            !old(self).deserialized() ==> *final(self) == *old(self) && r is Ok,
            r is Ok ==> final(self).stored_bytes() == Some(r->Ok_0@) && !final(self).deserialized(),
            r is Err ==> *final(self) == *old(self),
    {
        proof {
            use_type_invariant(&*self);
        }
        let encoded = match &self.inner {
            Some(inner) => Some(serialize_lazy(inner)),
            None => None,
        };
        match encoded {
            Some(Ok(bytes)) => {
                *self = Lazy { bytes: Some(bytes), inner: None };
            },
            Some(Err(e)) => {
                return Err(e);
            },
            None => {},
        }
        proof {
            use_type_invariant(&*self);
        }
        Ok(self.bytes.as_ref().unwrap().as_slice())
    }

    /// The bytes of the value, moved out: serialized when the value is what is held.
    pub fn take_bytes(self) -> (r: Result<Vec<u8>, rmp_serde::encode::Error>)
        ensures
            self.stored_bytes() matches Some(b) ==> (r matches Ok(v) && v@ == b),
    {
        proof {
            use_type_invariant(&self);
        }
        match self.inner {
            Some(inner) => serialize_lazy(&inner),
            None => Ok(self.bytes.unwrap()),
        }
    }

    /// The text a human-readable format (such as JSON) holds for the lazy value: its
    /// bytes in URL-safe base64 without padding.
    pub fn to_text(&self) -> (r: Result<String, rmp_serde::encode::Error>)
        ensures
            self.stored_bytes() matches Some(b) ==> (r matches Ok(t) && t@ == base64url_encode(b)
                && base64url_decode(t@) == Some(b)),
            r matches Ok(t) ==> base64url_decode(t@) is Some,
    {
        proof {
            use_type_invariant(self);
        }
        let bytes = self.wire_bytes();
        match bytes {
            Ok(b) => Ok(encode_base64url(b.as_slice())),
            Err(e) => Err(e),
        }
    }

    /// The bytes a binary format (such as MessagePack) holds for the lazy value.
    pub fn wire_bytes(&self) -> (r: Result<Vec<u8>, rmp_serde::encode::Error>)
        ensures
            self.stored_bytes() matches Some(b) ==> (r matches Ok(v) && v@ == b),
    {
        proof {
            use_type_invariant(self);
        }
        match &self.bytes {
            Some(data) => Ok(crate::bytes::copy_range(data.as_slice(), 0, data.len())),
            None => serialize_lazy(self.inner.as_ref().unwrap()),
        }
    }
}

impl<T> Lazy<T> {
    /// The lazy value a human-readable format holds as text: the bytes of its URL-safe
    /// base64 (without padding), or a message when the text is not that.
    pub fn from_text(text: &str) -> (r: Result<Self, String>)
        ensures
            match base64url_decode(text@) {
                Some(b) => r matches Ok(l) && l.stored_bytes() == Some(b) && l.value() is None,
                None => r matches Err(m) && m@ == "not valid base64url without padding"@,
            },
    {
        match decode_base64url(text) {
            Some(data) => Ok(Lazy::from_bytes(data)),
            None => Err(String::from_str("not valid base64url without padding")),
        }
    }
}

} // verus!
