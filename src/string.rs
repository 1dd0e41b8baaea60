use core::str::Utf8Error;
use vstd::prelude::*;
use vstd::string::*;
use vstd::utf8::*;

verus! {

#[verifier::external_type_specification]
#[verifier::external_body]
pub struct ExUtf8Error(Utf8Error);

/// Relies on `core::str::from_utf8`: it succeeds exactly on valid UTF-8, and
/// the string it returns views the same bytes.
pub assume_specification[ core::str::from_utf8 ](v: &[u8]) -> (r: core::result::Result<&str, Utf8Error>)
    ensures
        r is Ok <==> valid_utf8(v@),
        r matches Ok(s) ==> s.spec_bytes() == v@,
;

/// One immutable string block: the header word (byte length) followed by the
/// raw bytes, not nul-terminated.
pub struct SharedStrVTHelper {
    pub len: usize,
    pub raw: Vec<u8>,
}

/// An immutable string whose byte length lives in the header of its block.
pub struct SharableStr {
    ptr: SharedStrVTHelper,
}

impl View for SharableStr {
    type V = Seq<u8>;

    closed spec fn view(&self) -> Seq<u8> {
        self.ptr.raw@
    }
}

impl SharableStr {
    /// The header holds the number of payload bytes.
    pub closed spec fn wf(&self) -> bool {
        self.ptr.len == self.ptr.raw@.len()
    }

    /// Copies the bytes of `data` into a fresh block.
    pub fn create(data: &str) -> (r: Self)
        ensures
            r.wf(),
            r@ == data.spec_bytes(),
    {
        Self::from_raw(data.as_bytes())
    }

    /// Copies raw bytes from the boundary into a fresh block. They are not
    /// checked: the block may hold bytes that are not UTF-8.
    pub fn from_raw(bytes: &[u8]) -> (r: Self)
        ensures
            r.wf(),
            r@ == bytes@,
    {
        let length = bytes.len();
        let mut raw: Vec<u8> = Vec::with_capacity(length);
        let mut i: usize = 0;
        while i < length
            invariant
                length == bytes@.len(),
                i <= length,
                raw@ == bytes@.subrange(0, i as int),
            decreases length - i,
        {
            raw.push(bytes[i]);
            i = i + 1;
            assert(raw@ =~= bytes@.subrange(0, i as int));
        }
        assert(bytes@.subrange(0, length as int) =~= bytes@);
        SharableStr { ptr: SharedStrVTHelper { len: length, raw } }
    }

    /// Number of payload bytes, read from the header.
    pub fn len(&self) -> (r: usize)
        requires
            self.wf(),
        ensures
            r == self@.len(),
    {
        self.ptr.len
    }

    /// The payload bytes that cross the boundary.
    pub fn into_raw(&mut self) -> (r: &[u8])
        ensures
            r@ == old(self)@,
            *final(self) == *old(self),
    {
        self.ptr.raw.as_slice()
    }

    /// The payload as text, validated on each access: `Ok` exactly when the
    /// bytes are valid UTF-8, and then the text has exactly those bytes.
    pub fn as_str(data: &Self) -> (r: core::result::Result<&str, Utf8Error>)
        ensures
            r is Ok <==> valid_utf8(data@),
            r matches Ok(s) ==> s.spec_bytes() == data@,
    {
        core::str::from_utf8(data.ptr.raw.as_slice())
    }

    /// The payload as text, for callers that know the bytes are valid UTF-8.
    pub fn as_str_unchecked(data: &Self) -> (r: &str)
        requires
            valid_utf8(data@),
        ensures
            r.spec_bytes() == data@,
    {
        match core::str::from_utf8(data.ptr.raw.as_slice()) {
            Ok(s) => s,
            Err(_) => {
                assert(false);
                ""
            },
        }
    }
}

/// A string built from native text reads back as that same text: its bytes
/// are valid UTF-8, and any text with the same bytes is the same text.
pub proof fn lemma_create_round_trip(s: &str, t: &str)
    requires
        t.spec_bytes() == s.spec_bytes(),
    ensures
        valid_utf8(s.spec_bytes()),
        t@ == s@,
{
    encode_utf8_valid_utf8(s@);
    encode_utf8_decode_utf8(s@);
    encode_utf8_decode_utf8(t@);
}

} // verus!
