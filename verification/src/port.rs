//! x86 I/O port descriptors.
//!
//! A [`Port`] names a 16-bit I/O port address together with the width of the
//! accesses made through it. The `in`/`out` instructions themselves are
//! executed by the platform layer; this module only describes the port.

use vstd::prelude::*;

verus! {

/// Widths that an x86 I/O port can be accessed with.
pub trait PortWidth {}

impl PortWidth for u8 {}

impl PortWidth for u16 {}

impl PortWidth for u32 {}

/// An I/O port at a 16-bit address, accessed with width `T`.
#[derive(Debug)]
pub struct Port<T> where T: PortWidth {
    addr: u16,
    width: core::marker::PhantomData<T>,
}

impl<T> Port<T> where T: PortWidth {
    /// The address this port descriptor names.
    pub closed spec fn spec_addr(&self) -> u16 {
        self.addr
    }

    /// Describes the port at `addr`.
    pub fn new(addr: u16) -> (port: Self)
        ensures
            port.spec_addr() == addr,
    {
        Port { addr, width: core::marker::PhantomData }
    }

    /// The address of the port.
    pub fn addr(&self) -> (addr: u16)
        ensures
            addr == self.spec_addr(),
    {
        self.addr
    }
}

impl<T> Clone for Port<T> where T: PortWidth {
    fn clone(&self) -> (copy: Self)
        ensures
            copy.spec_addr() == self.spec_addr(),
    {
        Port { addr: self.addr, width: core::marker::PhantomData }
    }
}

impl<T> Copy for Port<T> where T: PortWidth {}

} // verus!
