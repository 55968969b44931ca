//! A program image as handed to the interpreter.
use vstd::prelude::*;

verus! {

/// The raw bytes of a cartridge, as read by the host.
pub struct CartridgeDriver {
    cartridge_content: Vec<u8>,
}

impl CartridgeDriver {
    pub closed spec fn content(&self) -> Seq<u8> {
        self.cartridge_content@
    }

    /// Wraps bytes that the host has read from a cartridge file.
    pub fn from_bytes(content: Vec<u8>) -> (r: Self)
        ensures
            r.content() == content@,
    {
        CartridgeDriver { cartridge_content: content }
    }

    /// Hands out the cartridge's bytes.
    pub fn get(self) -> (r: Vec<u8>)
        ensures
            r@ == self.content(),
    {
        self.cartridge_content
    }
}

} // verus!
