//! What a record has to offer to be sent without a serializer.

use vstd::prelude::*;

verus! {

/// A record that can write itself as a MessagePack value.
pub trait ToMessagePack {
    fn encode(&self) -> Vec<u8>;
}

/// A record that can write itself as JSON text.
pub trait ToJSON {
    fn encode(&self) -> String;
}

} // verus!
