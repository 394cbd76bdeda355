use vstd::prelude::*;

verus! {

/// One byte to be written to an I/O port.
///
/// The library never touches ports itself: operations that need the hardware
/// return the writes to perform, in order, and the caller performs them.
#[derive(Debug, Clone, Copy, PartialEq, Eq, Structural)]
pub struct PortWrite {
    pub port: u16,
    pub value: u8,
}

/// Builds the port write of `value` to `port`.
pub fn port_write(port: u16, value: u8) -> (r: PortWrite)
    ensures
        r == (PortWrite { port, value }),
{
    PortWrite { port, value }
}

} // verus!
