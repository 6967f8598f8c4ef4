use vstd::prelude::*;

verus! {

/// An owned byte payload: the primary contents of a file or one of its encoded variants.
///
/// Serialised forms (base64 text in human-readable formats, raw bytes otherwise) belong to
/// the code that serialises the store.
#[derive(Clone, Debug, Default, PartialEq, Eq)]
pub struct Base64Bytes(Vec<u8>);

impl View for Base64Bytes {
    type V = Seq<u8>;

    closed spec fn view(&self) -> Seq<u8> {
        self.0@
    }
}

impl Base64Bytes {
    /// Copies bytes that live for the whole program, such as bytes embedded in the binary.
    pub fn from_static(bytes: &'static [u8]) -> (r: Self)
        ensures
            r@ == bytes@,
    {
        Base64Bytes(vstd::slice::slice_to_vec(bytes))
    }

    /// Takes ownership of a vector of bytes.
    pub fn from_vec(bytes: Vec<u8>) -> (r: Self)
        ensures
            r@ == bytes@,
    {
        Base64Bytes(bytes)
    }

    /// The bytes held.
    pub fn as_slice(&self) -> (r: &[u8])
        ensures
            r@ == self@,
    {
        self.0.as_slice()
    }

    /// The number of bytes held.
    pub fn len(&self) -> (r: usize)
        ensures
            r == self@.len(),
    {
        self.0.len()
    }

    /// Gives back the vector of bytes.
    pub fn into_vec(self) -> (r: Vec<u8>)
        ensures
            r@ == self@,
    {
        self.0
    }
}

impl From<Vec<u8>> for Base64Bytes {
    fn from(val: Vec<u8>) -> (r: Self) {
        Base64Bytes(val)
    }
}

impl vstd::std_specs::convert::FromSpecImpl<Vec<u8>> for Base64Bytes {
    open spec fn obeys_from_spec() -> bool {
        true
    }

    closed spec fn from_spec(val: Vec<u8>) -> Self {
        Base64Bytes(val)
    }
}

/// An owned byte buffer, the owned counterpart of a borrowed byte view.
#[derive(Clone, Debug, Default, PartialEq, Eq)]
pub struct ByteBuf(Vec<u8>);

impl View for ByteBuf {
    type V = Seq<u8>;

    closed spec fn view(&self) -> Seq<u8> {
        self.0@
    }
}

impl ByteBuf {
    /// The bytes held.
    pub fn as_slice(&self) -> (r: &[u8])
        ensures
            r@ == self@,
    {
        self.0.as_slice()
    }

    /// Gives back the vector of bytes.
    pub fn into_vec(self) -> (r: Vec<u8>)
        ensures
            r@ == self@,
    {
        self.0
    }
}

impl From<Vec<u8>> for ByteBuf {
    fn from(val: Vec<u8>) -> (r: Self) {
        ByteBuf(val)
    }
}

impl vstd::std_specs::convert::FromSpecImpl<Vec<u8>> for ByteBuf {
    open spec fn obeys_from_spec() -> bool {
        true
    }

    closed spec fn from_spec(val: Vec<u8>) -> Self {
        ByteBuf(val)
    }
}

} // verus!
