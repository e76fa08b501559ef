//! Which address a generated client is told to reach.

use crate::network::{isLoopback, isUnspecified, HostAddress, IpAddress};
use crate::text::{concatText, concatThree, copyText, decimal, decimalText};
use vstd::prelude::*;

verus! {

/// The address block that starts at `base` and covers `size` addresses.
pub open spec fn within(bits: int, base: int, size: int) -> bool {
    base <= bits < base + size
}

/// Addresses of private networks: 10/8, 172.16/12 and 192.168/16.
pub open spec fn isPrivateV4(bits: u32) -> bool {
    ||| within(bits as int, 0x0a00_0000, 0x0100_0000)
    ||| within(bits as int, 0xac10_0000, 0x0010_0000)
    ||| within(bits as int, 0xc0a8_0000, 0x0001_0000)
}

/// Addresses of a single link: 169.254/16.
pub open spec fn isLinkLocalV4(bits: u32) -> bool {
    within(bits as int, 0xa9fe_0000, 0x0001_0000)
}

/// Addresses kept for documentation: 192.0.2/24, 198.51.100/24 and 203.0.113/24.
pub open spec fn isDocumentationV4(bits: u32) -> bool {
    ||| within(bits as int, 0xc000_0200, 0x100)
    ||| within(bits as int, 0xc633_6400, 0x100)
    ||| within(bits as int, 0xcb00_7100, 0x100)
}

/// Multicast addresses: 224/4.
pub open spec fn isMulticastV4(bits: u32) -> bool {
    within(bits as int, 0xe000_0000, 0x1000_0000)
}

/// Shared, protocol, benchmark and reserved blocks: 0/8, 100.64/10, 192.0/16, 198.18/15 and 240/4.
pub open spec fn isSpecialV4(bits: u32) -> bool {
    ||| within(bits as int, 0, 0x0100_0000)
    ||| within(bits as int, 0x6440_0000, 0x0040_0000)
    ||| within(bits as int, 0xc000_0000, 0x0001_0000)
    ||| within(bits as int, 0xc612_0000, 0x0002_0000)
    ||| within(bits as int, 0xf000_0000, 0x1000_0000)
}

/// Whether a version-four address can be reached from the public internet.
pub open spec fn isPublicV4(bits: u32) -> bool {
    &&& !isPrivateV4(bits)
    &&& !isLoopback(IpAddress::V4(bits))
    &&& !isLinkLocalV4(bits)
    &&& bits != 0xffff_ffff
    &&& !isDocumentationV4(bits)
    &&& !isUnspecified(IpAddress::V4(bits))
    &&& !isMulticastV4(bits)
    &&& !isSpecialV4(bits)
}

/// The version-four address inside a compatible (`::a.b.c.d`) or mapped (`::ffff:a.b.c.d`) one.
pub open spec fn embeddedV4(bits: u128) -> Option<u32> {
    let prefix = bits as int / 0x1_0000_0000;
    if prefix == 0 || prefix == 0xffff {
        Some((bits as int % 0x1_0000_0000) as u32)
    } else {
        None
    }
}

/// The first of the eight groups of a version-six address.
pub open spec fn firstGroup(bits: u128) -> int {
    bits as int / 0x1_0000_0000_0000_0000_0000_0000_0000
}

/// The second of the eight groups of a version-six address.
pub open spec fn secondGroup(bits: u128) -> int {
    bits as int / 0x1_0000_0000_0000_0000_0000_0000 % 0x1_0000
}

/// Documentation blocks of the sixth version: 2001:db8::/32 and 3fff::/20.
pub open spec fn isDocumentationV6(bits: u128) -> bool {
    ||| firstGroup(bits) == 0x2001 && secondGroup(bits) == 0x0db8
    ||| firstGroup(bits) == 0x3fff && secondGroup(bits) < 0x1000
}

/// The withdrawn site-local block fec0::/10.
pub open spec fn isSiteLocalV6(bits: u128) -> bool {
    within(firstGroup(bits), 0xfec0, 0x40)
}

/// Whether an address can be reached from the public internet.
pub open spec fn isPublicAddress(address: IpAddress) -> bool {
    match address {
        IpAddress::V4(bits) => isPublicV4(bits),
        IpAddress::V6(bits) => match embeddedV4(bits) {
            Some(embedded) => isPublicV4(embedded),
            None => {
                &&& !isLoopback(address)
                &&& !isUnspecified(address)
                &&& !within(firstGroup(bits), 0xfc00, 0x200)
                &&& !within(firstGroup(bits), 0xfe80, 0x40)
                &&& firstGroup(bits) < 0xff00
                &&& !isSiteLocalV6(bits)
                &&& !isDocumentationV6(bits)
            },
        },
    }
}

/// Whether a version-four address belongs to a shared, protocol, benchmark or reserved block.
pub fn isSpecialIpv4(bits: u32) -> (result: bool)
    ensures
        result == isSpecialV4(bits),
{
    let first: u32 = bits / 0x0100_0000;
    let second: u32 = bits / 0x1_0000 % 0x100;
    first == 0 || (first == 100 && 64 <= second && second <= 127) || (first == 192 && second == 0)
        || (first == 198 && 18 <= second && second <= 19) || first >= 240
}

fn isPublicIpv4(bits: u32) -> (result: bool)
    ensures
        result == isPublicV4(bits),
{
    let first: u32 = bits / 0x0100_0000;
    let upper: u32 = bits / 0x1_0000;
    let block: u32 = bits / 0x100;
    let private = first == 10 || (0xac10 <= upper && upper <= 0xac1f) || upper == 0xc0a8;
    let documentation = block == 0xc0_0002 || block == 0xc6_3364 || block == 0xcb_0071;
    !private && first != 127 && upper != 0xa9fe && bits != 0xffff_ffff && !documentation && bits
        != 0 && !(224 <= first && first <= 239) && !isSpecialIpv4(bits)
}

/// Whether a version-six address is kept for documentation.
pub fn isDocumentationIpv6(bits: u128) -> (result: bool)
    ensures
        result == isDocumentationV6(bits),
{
    let first: u128 = bits / 0x1_0000_0000_0000_0000_0000_0000_0000;
    let second: u128 = bits / 0x1_0000_0000_0000_0000_0000_0000 % 0x1_0000;
    (first == 0x2001 && second == 0x0db8) || (first == 0x3fff && second < 0x1000)
}

/// Whether a version-six address belongs to the withdrawn site-local block.
pub fn isDeprecatedSiteLocalIpv6(bits: u128) -> (result: bool)
    ensures
        result == isSiteLocalV6(bits),
{
    let first: u128 = bits / 0x1_0000_0000_0000_0000_0000_0000_0000;
    0xfec0 <= first && first < 0xff00
}

/// Whether an address may be built into a client as its node.
pub fn isPublicClientNodeAddress(address: IpAddress) -> (result: bool)
    ensures
        result == isPublicAddress(address),
{
    match address {
        IpAddress::V4(bits) => isPublicIpv4(bits),
        IpAddress::V6(bits) => {
            let prefix: u128 = bits / 0x1_0000_0000;
            if prefix == 0 || prefix == 0xffff {
                isPublicIpv4((bits % 0x1_0000_0000) as u32)
            } else {
                let first: u128 = bits / 0x1_0000_0000_0000_0000_0000_0000_0000;
                !address.loopback() && !address.unspecified() && !(0xfc00 <= first && first
                    <= 0xfdff) && !(0xfe80 <= first && first <= 0xfebf) && first < 0xff00
                    && !isDeprecatedSiteLocalIpv6(bits) && !isDocumentationIpv6(bits)
            }
        },
    }
}

/// Wrapping a version-four address in its mapped version-six form changes nothing of its reach.
pub proof fn lawMappedAddressKeepsReach(bits: u32)
    ensures
        isPublicAddress(IpAddress::V6((0xffff_0000_0000u128 + bits) as u128)) == isPublicAddress(
            IpAddress::V4(bits),
        ),
{
    let mapped = (0xffff_0000_0000u128 + bits) as u128;
    assert(mapped as int / 0x1_0000_0000 == 0xffff);
    assert(mapped as int % 0x1_0000_0000 == bits);
}

/// A public address is neither unspecified nor loopback.
pub proof fn lawPublicAddressIsRemote(address: IpAddress)
    requires
        isPublicAddress(address),
    ensures
        !isUnspecified(address),
        !isLoopback(address),
{
    match address {
        IpAddress::V4(_) => {},
        IpAddress::V6(bits) => {
            if bits <= 1 {
                assert(embeddedV4(bits) == Some(bits as u32));
            }
        },
    }
}

/// The text of a parsed address, when the address is public.
pub open spec fn publicHost(host: Option<HostAddress>) -> Option<Seq<char>> {
    match host {
        Some(host) => if isPublicAddress(host.address) {
            Some(host.text@)
        } else {
            None
        },
        None => None,
    }
}

/// The text of an address that a fixed deployment or the discovery service gave, when it is
/// public; `None` stands for an unavailable node.
pub fn parsePublicClientNodeAddress(host: &Option<HostAddress>) -> (result: Option<String>)
    ensures
        crate::text::optionalView(result) == publicHost(*host),
{
    match host {
        Some(host) => if isPublicClientNodeAddress(host.address) {
            Some(copyText(host.text.as_str()))
        } else {
            None
        },
        None => None,
    }
}

/// How the node of a client is found.
#[derive(Debug)]
pub enum NodeHostPlan {
    /// Use this host.
    Use(String),
    /// No node can be offered.
    Unavailable,
    /// Ask the discovery service for the public address.
    Discover,
}

/// The mathematical value of a plan.
pub enum NodeHostPlanView {
    Use(Seq<char>),
    Unavailable,
    Discover,
}

impl View for NodeHostPlan {
    type V = NodeHostPlanView;

    open spec fn view(&self) -> NodeHostPlanView {
        match self {
            NodeHostPlan::Use(host) => NodeHostPlanView::Use(host@),
            NodeHostPlan::Unavailable => NodeHostPlanView::Unavailable,
            NodeHostPlan::Discover => NodeHostPlanView::Discover,
        }
    }
}

/// A host that is set for a deployment: given, and read as an address where it is one.
#[derive(Debug)]
pub enum FixedHost {
    Absent,
    Given(Option<HostAddress>),
}

/// The plan: a fixed public host decides, then a test host, then a public listener, then discovery.
pub open spec fn nodeHostPlan(
    configured: FixedHost,
    test: FixedHost,
    listen: HostAddress,
) -> NodeHostPlanView {
    match configured {
        FixedHost::Given(host) => match publicHost(host) {
            Some(text) => NodeHostPlanView::Use(text),
            None => NodeHostPlanView::Unavailable,
        },
        FixedHost::Absent => match test {
            FixedHost::Given(Some(host)) => if isUnspecified(host.address) || isLoopback(
                host.address,
            ) {
                NodeHostPlanView::Unavailable
            } else {
                NodeHostPlanView::Use(host.text@)
            },
            FixedHost::Given(None) => NodeHostPlanView::Unavailable,
            FixedHost::Absent => if isPublicAddress(listen.address) {
                NodeHostPlanView::Use(listen.text@)
            } else {
                NodeHostPlanView::Discover
            },
        },
    }
}

/// Plans how the node of a client is found. A released build passes no test host.
pub fn resolvePackagedNodeHost(
    configured: &FixedHost,
    test: &FixedHost,
    listen: &HostAddress,
) -> (result: NodeHostPlan)
    ensures
        result@ == nodeHostPlan(*configured, *test, *listen),
{
    match configured {
        FixedHost::Given(host) => match parsePublicClientNodeAddress(host) {
            Some(text) => NodeHostPlan::Use(text),
            None => NodeHostPlan::Unavailable,
        },
        FixedHost::Absent => match test {
            FixedHost::Given(Some(host)) => if host.address.unspecified() || host.address.loopback() {
                NodeHostPlan::Unavailable
            } else {
                NodeHostPlan::Use(copyText(host.text.as_str()))
            },
            FixedHost::Given(None) => NodeHostPlan::Unavailable,
            FixedHost::Absent => if isPublicClientNodeAddress(listen.address) {
                NodeHostPlan::Use(copyText(listen.text.as_str()))
            } else {
                NodeHostPlan::Discover
            },
        },
    }
}

/// The host under which clients find their rules inside the authenticated tunnel.
pub const clientRulesHost: &'static str = "client-rules.internal.invalid";

/// The path of the rules.
pub const clientRulesPath: &'static str = "/api/v1/client/routing.txt";

/// The absolute address of the rules.
pub fn clientRulesUrl(remotePort: u16) -> (result: String)
    ensures
        result@ == "http://"@ + clientRulesHost@ + ":"@ + decimal(remotePort as nat)
            + clientRulesPath@,
{
    let start = concatThree("http://", clientRulesHost, ":");
    let port = decimalText(remotePort as u64);
    let authority = concatText(start.as_str(), port.as_str());
    concatText(authority.as_str(), clientRulesPath)
}

/// An address of four numbers can be reached from outside exactly where it is none of the reserved ones:
/// private, of this machine or this network, of a carrier, for documentation or for tests, to many or for
/// later use.
pub proof fn lawReservedAddressesAreNotPublic(a: u8, b: u8, c: u8, d: u8, bits: u32)
    requires
        bits == a * 0x100_0000 + b * 0x1_0000 + c * 0x100 + d,
    ensures
        isPublicAddress(IpAddress::V4(bits)) <==> {
            &&& a != 0 && a != 10 && a != 127
            &&& !(a == 172 && 16 <= b <= 31) && !(a == 192 && b == 168)
            &&& !(a == 169 && b == 254)
            &&& !(a == 100 && 64 <= b <= 127)
            &&& !(a == 192 && b == 0)
            &&& !(a == 198 && (b == 18 || b == 19)) && !(a == 198 && b == 51 && c == 100)
            &&& !(a == 203 && b == 0 && c == 113)
            &&& a < 224
        },
{
}

/// An address of eight groups can be reached from outside where it holds such an address of four numbers, or
/// else is none that is local, to many, or for documentation.
pub proof fn lawLocalGroupsAreNotPublic(first: u16, rest: u128, bits: u128)
    requires
        first >= 2,
        rest < 0x1_0000_0000_0000_0000_0000_0000_0000,
        bits == first * 0x1_0000_0000_0000_0000_0000_0000_0000 + rest,
    ensures
        0xfc00 <= first ==> !isPublicAddress(IpAddress::V6(bits)) || 0xfe00 <= first < 0xfe80,
        first < 0x2001 || (0x2001 < first < 0x3fff) || (0x3fff < first < 0xfc00)
            ==> isPublicAddress(IpAddress::V6(bits)),
        first == 0x2001 ==> (isPublicAddress(IpAddress::V6(bits)) <==> rest
            / 0x1_0000_0000_0000_0000_0000_0000 != 0x0db8),
{
    assert(bits / 0x1_0000_0000_0000_0000_0000_0000_0000 == first) by (nonlinear_arith)
        requires
            rest < 0x1_0000_0000_0000_0000_0000_0000_0000,
            bits == first * 0x1_0000_0000_0000_0000_0000_0000_0000 + rest,
    ;
    assert(firstGroup(bits) == first);
    assert(secondGroup(bits) == rest / 0x1_0000_0000_0000_0000_0000_0000) by (nonlinear_arith)
        requires
            rest < 0x1_0000_0000_0000_0000_0000_0000_0000,
            bits == first * 0x1_0000_0000_0000_0000_0000_0000_0000 + rest,
            secondGroup(bits) == bits as int / 0x1_0000_0000_0000_0000_0000_0000 % 0x1_0000,
    ;
    assert(bits >= 2 * 0x1_0000_0000_0000_0000_0000_0000_0000);
    assert(bits as int / 0x1_0000_0000 > 0xffff);
}

/// What was fixed decides: a fixed host is used where it can be reached from outside and refused where not, a
/// host for tests only needs to be another machine, and without either the listening address is used where it
/// can be reached, else the public one is looked up.
pub proof fn lawFixedHostDecides(configured: FixedHost, test: FixedHost, listen: HostAddress)
    ensures
        configured matches FixedHost::Given(Some(host)) ==> nodeHostPlan(configured, test, listen)
            == if isPublicAddress(host.address) {
            NodeHostPlanView::Use(host.text@)
        } else {
            NodeHostPlanView::Unavailable
        },
        configured == FixedHost::Given(None) ==> nodeHostPlan(configured, test, listen)
            == NodeHostPlanView::Unavailable,
        configured is Absent && test == FixedHost::Given(None) ==> nodeHostPlan(
            configured,
            test,
            listen,
        ) == NodeHostPlanView::Unavailable,
        configured is Absent ==> (test matches FixedHost::Given(Some(host)) ==> nodeHostPlan(
            configured,
            test,
            listen,
        ) == if isUnspecified(host.address) || isLoopback(host.address) {
            NodeHostPlanView::Unavailable
        } else {
            NodeHostPlanView::Use(host.text@)
        }),
        configured is Absent && test is Absent ==> nodeHostPlan(configured, test, listen)
            == if isPublicAddress(listen.address) {
            NodeHostPlanView::Use(listen.text@)
        } else {
            NodeHostPlanView::Discover
        },
{
}

} // verus!
