//! Key names. Redis keys are bytes, not text: a name is compared and sent as
//! the bytes it is, and turned into text only to be shown.

use vstd::prelude::*;

use crate::text;

verus! {

/// The name of a key, by its exact bytes.
#[derive(Debug, PartialEq, Eq)]
pub struct KeyName {
    bytes: Vec<u8>,
}

impl View for KeyName {
    type V = Seq<u8>;

    closed spec fn view(&self) -> Seq<u8> {
        self.bytes@
    }
}

impl KeyName {
    pub fn new(bytes: &[u8]) -> (name: KeyName)
        ensures
            name@ == bytes@,
    {
        KeyName { bytes: text::copy_bytes(bytes) }
    }

    pub fn as_bytes(&self) -> (bytes: &[u8])
        ensures
            bytes@ == self@,
    {
        self.bytes.as_slice()
    }

    /// Whether both name the same key.
    pub fn is(&self, other: &KeyName) -> (same: bool)
        ensures
            same == (self@ == other@),
    {
        text::same_bytes(self.as_bytes(), other.as_bytes())
    }

    /// The name as text to show. Bytes that are not UTF-8 show as replacement
    /// characters, so this must never be sent to the server as a key.
    pub fn display(&self) -> (shown: String)
        ensures
            shown@ == text::shown(self@),
    {
        text::lossy_text(self.as_bytes())
    }
}

impl Clone for KeyName {
    fn clone(&self) -> (copy: KeyName)
        ensures
            copy@ == self@,
    {
        KeyName::new(self.as_bytes())
    }
}

impl From<&str> for KeyName {
    fn from(name: &str) -> (r: KeyName)
        ensures
            r@ == vstd::utf8::encode_utf8(name@),
    {
        KeyName::new(name.as_bytes())
    }
}

impl vstd::std_specs::convert::FromSpecImpl<&str> for KeyName {
    open spec fn obeys_from_spec() -> bool {
        false
    }

    open spec fn from_spec(name: &str) -> KeyName {
        arbitrary()
    }
}

impl From<Vec<u8>> for KeyName {
    fn from(bytes: Vec<u8>) -> (r: KeyName)
        ensures
            r@ == bytes@,
    {
        KeyName { bytes }
    }
}

impl vstd::std_specs::convert::FromSpecImpl<Vec<u8>> for KeyName {
    open spec fn obeys_from_spec() -> bool {
        false
    }

    open spec fn from_spec(bytes: Vec<u8>) -> KeyName {
        arbitrary()
    }
}

impl PartialEq<&str> for KeyName {
    fn eq(&self, other: &&str) -> (same: bool) {
        text::same_bytes(self.as_bytes(), other.as_bytes())
    }
}

impl vstd::std_specs::cmp::PartialEqSpecImpl<&str> for KeyName {
    open spec fn obeys_eq_spec() -> bool {
        true
    }

    open spec fn eq_spec(&self, other: &&str) -> bool {
        self@ == vstd::utf8::encode_utf8(other@)
    }
}

} // verus!
