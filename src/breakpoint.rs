use vstd::prelude::*;

verus! {

/// A software breakpoint: a target address and the instruction byte that the
/// trap opcode replaced there (zero until the breakpoint has been installed).
#[derive(Clone, Copy, Debug, PartialEq, Eq, Structural)]
pub struct Breakpoint {
    pub addr: u64,
    pub orig_byte: u8,
}

impl Breakpoint {
    /// A breakpoint at `addr` that has not captured any byte yet.
    pub fn new(addr: u64) -> (r: Breakpoint)
        ensures
            r.addr == addr,
            r.orig_byte == 0,
    {
        Breakpoint { addr, orig_byte: 0 }
    }

    pub fn set_orig_byte(&mut self, orig_byte: u8)
        ensures
            final(self).addr == old(self).addr,
            final(self).orig_byte == orig_byte,
    {
        self.orig_byte = orig_byte;
    }

    pub fn get_orig_byte(&self) -> (r: u8)
        ensures
            r == self.orig_byte,
    {
        self.orig_byte
    }

    pub fn get_addr(&self) -> (r: u64)
        ensures
            r == self.addr,
    {
        self.addr
    }
}

} // verus!
