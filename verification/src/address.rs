//! Socket addresses: an IPv4 host and a port, and how they are written.

use crate::text::{decimal, decimal_text};
use vstd::prelude::*;
use vstd::string::StringExecFns;

verus! {

/// An IPv4 address `a.b.c.d` with a port. Every value is a valid address:
/// the types of the fields are the whole invariant.
#[derive(Clone, Copy, Debug, PartialEq, Eq, Hash, Structural)]
pub struct SocketAddress {
    pub a: u8,
    pub b: u8,
    pub c: u8,
    pub d: u8,
    pub port: u16,
}

/// The dotted-decimal text of a host: four shortest decimal numerals with a
/// dot between neighbours.
pub open spec fn dotted(a: u8, b: u8, c: u8, d: u8) -> Seq<char> {
    decimal_text(a as nat).push('.') + decimal_text(b as nat).push('.') + decimal_text(
        c as nat,
    ).push('.') + decimal_text(d as nat)
}

impl SocketAddress {
    /// The host in dotted-decimal notation.
    pub open spec fn host_text(self) -> Seq<char> {
        dotted(self.a, self.b, self.c, self.d)
    }

    /// The port as a shortest decimal numeral.
    pub open spec fn port_text(self) -> Seq<char> {
        decimal_text(self.port as nat)
    }

    /// Host and port as messages name them: with one space between.
    pub open spec fn display_text(self) -> Seq<char> {
        self.host_text().push(' ') + self.port_text()
    }

    /// The address as one number: the four octets and the port, most
    /// significant first, in the low 48 bits.
    pub open spec fn spec_key(self) -> u64 {
        ((((self.a as nat * 256 + self.b as nat) * 256 + self.c as nat) * 256 + self.d as nat)
            * 65536 + self.port as nat) as u64
    }

    /// The address of the given octets and port.
    pub fn new(a: u8, b: u8, c: u8, d: u8, port: u16) -> (addr: Self)
        ensures
            addr == (SocketAddress { a, b, c, d, port }),
    {
        SocketAddress { a, b, c, d, port }
    }

    /// Writes the host in dotted-decimal notation.
    pub fn ip(&self) -> (s: String)
        ensures
            s@ == self.host_text(),
    {
        let mut s = decimal(self.a as u64);
        s.push('.');
        s.append(decimal(self.b as u64).as_str());
        s.push('.');
        s.append(decimal(self.c as u64).as_str());
        s.push('.');
        s.append(decimal(self.d as u64).as_str());
        s
    }

    /// Writes host and port with one space between.
    pub fn display(&self) -> (s: String)
        ensures
            s@ == self.display_text(),
    {
        let mut s = self.ip();
        s.push(' ');
        s.append(decimal(self.port as u64).as_str());
        s
    }

    /// Computes [`Self::spec_key`].
    pub fn key(&self) -> (k: u64)
        ensures
            k == self.spec_key(),
    {
        let host: u64 = ((self.a as u64 * 256 + self.b as u64) * 256 + self.c as u64) * 256
            + self.d as u64;
        host * 65536 + self.port as u64
    }
}

/// Distinct addresses have distinct keys.
pub proof fn lemma_key_injective(x: SocketAddress, y: SocketAddress)
    requires
        x.spec_key() == y.spec_key(),
    ensures
        x == y,
{
}

} // verus!
