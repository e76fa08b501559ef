//! Network addresses as plain values.

use crate::text::copyText;
use vstd::prelude::*;

verus! {

/// An IP address by its bits, most significant first.
#[derive(Clone, Copy, Debug, PartialEq, Eq, Structural)]
pub enum IpAddress {
    V4(u32),
    V6(u128),
}

/// The loopback address of the fourth version, 127.0.0.1.
pub const loopbackV4: u32 = 0x7f00_0001;

/// The loopback address of the sixth version, ::1.
pub const loopbackV6: u128 = 1;

/// Whether an address stands for every address of the machine.
pub open spec fn isUnspecified(address: IpAddress) -> bool {
    match address {
        IpAddress::V4(bits) => bits == 0,
        IpAddress::V6(bits) => bits == 0,
    }
}

/// Whether an address never leaves the machine.
pub open spec fn isLoopback(address: IpAddress) -> bool {
    match address {
        IpAddress::V4(bits) => 0x7f00_0000 <= bits <= 0x7fff_ffff,
        IpAddress::V6(bits) => bits == 1,
    }
}

/// An address that reaches the same listener from the machine itself.
pub open spec fn reachableLocally(address: IpAddress) -> IpAddress {
    match address {
        IpAddress::V4(bits) => if bits == 0 {
            IpAddress::V4(loopbackV4)
        } else {
            address
        },
        IpAddress::V6(bits) => if bits == 0 {
            IpAddress::V6(loopbackV6)
        } else {
            address
        },
    }
}

impl IpAddress {
    /// Whether the address stands for every address of the machine.
    pub fn unspecified(&self) -> (result: bool)
        ensures
            result == isUnspecified(*self),
    {
        match self {
            IpAddress::V4(bits) => *bits == 0,
            IpAddress::V6(bits) => *bits == 0,
        }
    }

    /// Whether the address never leaves the machine.
    pub fn loopback(&self) -> (result: bool)
        ensures
            result == isLoopback(*self),
    {
        match self {
            IpAddress::V4(bits) => 0x7f00_0000 <= *bits && *bits <= 0x7fff_ffff,
            IpAddress::V6(bits) => *bits == 1,
        }
    }

    /// The loopback address in place of an unspecified one, in the same family.
    pub fn local(&self) -> (result: IpAddress)
        ensures
            result == reachableLocally(*self),
    {
        match self {
            IpAddress::V4(bits) => if *bits == 0 {
                IpAddress::V4(loopbackV4)
            } else {
                *self
            },
            IpAddress::V6(bits) => if *bits == 0 {
                IpAddress::V6(loopbackV6)
            } else {
                *self
            },
        }
    }
}

/// The address that reaches a listener locally is never unspecified.
pub proof fn lawLocalAddressIsSpecific(address: IpAddress)
    ensures
        !isUnspecified(reachableLocally(address)),
        isUnspecified(address) ==> isLoopback(reachableLocally(address)),
        !isUnspecified(address) ==> reachableLocally(address) == address,
{
}

/// A parsed host: the address and its canonical text.
#[derive(Clone, Debug)]
pub struct HostAddress {
    pub address: IpAddress,
    pub text: String,
}

impl HostAddress {
    /// Whether two hosts hold the same address and text.
    pub open spec fn same(&self, other: &HostAddress) -> bool {
        self.address == other.address && self.text@ == other.text@
    }

    /// An independent copy.
    pub fn copied(&self) -> (result: HostAddress)
        ensures
            result.same(self),
    {
        HostAddress { address: self.address, text: copyText(self.text.as_str()) }
    }
}

/// An address with a port.
#[derive(Clone, Copy, Debug, PartialEq, Eq, Structural)]
pub struct Endpoint {
    pub address: IpAddress,
    pub port: u16,
}

/// The addresses whose first byte is 127, and the address one of the longer kind, stay on the machine; the address
/// nought names no interface.
pub proof fn lawLoopbackAddresses(first: int, rest: int, long: u128)
    requires
        0 <= first < 256,
        0 <= rest < 0x0100_0000,
    ensures
        isLoopback(IpAddress::V4((first * 0x0100_0000 + rest) as u32)) <==> first == 127,
        isUnspecified(IpAddress::V4((first * 0x0100_0000 + rest) as u32)) <==> first == 0 && rest == 0,
        isLoopback(IpAddress::V6(long)) <==> long == 1,
        isUnspecified(IpAddress::V6(long)) <==> long == 0,
        reachableLocally(IpAddress::V4(0)) == IpAddress::V4((127 * 0x0100_0000 + 1) as u32),
        reachableLocally(IpAddress::V6(0)) == IpAddress::V6(1),
{
}

/// Two hosts are the same where both their address and what was written for it are.
pub proof fn lawSameHostIsWrittenAlike(first: HostAddress, second: HostAddress)
    ensures
        first.same(&second) ==> first.address == second.address && first.text@ == second.text@,
        first.address == second.address && first.text@ == second.text@ ==> first.same(&second),
{
}

} // verus!
