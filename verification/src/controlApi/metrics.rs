//! Counters of the data plane, across service cycles and across protocols.

use vstd::prelude::*;

verus! {

/// The counters of a data plane.
#[derive(Clone, Copy, Debug, PartialEq, Eq, Structural)]
pub struct ServiceMetrics {
    pub acceptedConnections: u64,
    pub activeConnections: u64,
    pub failedConnections: u64,
    pub bytesUp: u64,
    pub bytesDown: u64,
    pub udpPacketsUp: u64,
    pub udpPacketsDown: u64,
    pub droppedUdpPackets: u64,
}

/// A sum that stops at the largest number.
pub open spec fn saturatingSum(left: u64, right: u64) -> u64 {
    if left + right > u64::MAX {
        u64::MAX
    } else {
        (left + right) as u64
    }
}

/// Counters of ended cycles together with those of the current one, whose connections alone are
/// active.
pub open spec fn combined(archived: ServiceMetrics, current: ServiceMetrics) -> ServiceMetrics {
    ServiceMetrics {
        acceptedConnections: saturatingSum(
            archived.acceptedConnections,
            current.acceptedConnections,
        ),
        activeConnections: current.activeConnections,
        failedConnections: saturatingSum(archived.failedConnections, current.failedConnections),
        bytesUp: saturatingSum(archived.bytesUp, current.bytesUp),
        bytesDown: saturatingSum(archived.bytesDown, current.bytesDown),
        udpPacketsUp: saturatingSum(archived.udpPacketsUp, current.udpPacketsUp),
        udpPacketsDown: saturatingSum(archived.udpPacketsDown, current.udpPacketsDown),
        droppedUdpPackets: saturatingSum(archived.droppedUdpPackets, current.droppedUdpPackets),
    }
}

/// Counters of two data planes of the same cycle.
pub open spec fn combinedConcurrent(left: ServiceMetrics, right: ServiceMetrics) -> ServiceMetrics {
    ServiceMetrics {
        activeConnections: saturatingSum(left.activeConnections, right.activeConnections),
        ..combined(left, right)
    }
}

/// Counters that have counted nothing.
pub open spec fn noMetrics() -> ServiceMetrics {
    ServiceMetrics {
        acceptedConnections: 0,
        activeConnections: 0,
        failedConnections: 0,
        bytesUp: 0,
        bytesDown: 0,
        udpPacketsUp: 0,
        udpPacketsDown: 0,
        droppedUdpPackets: 0,
    }
}

impl Default for ServiceMetrics {
    fn default() -> (result: ServiceMetrics)
        ensures
            result == noMetrics(),
    {
        ServiceMetrics {
            acceptedConnections: 0,
            activeConnections: 0,
            failedConnections: 0,
            bytesUp: 0,
            bytesDown: 0,
            udpPacketsUp: 0,
            udpPacketsDown: 0,
            droppedUdpPackets: 0,
        }
    }
}

/// Adds the counters of the current cycle to those of ended ones; only the current cycle has
/// active connections.
pub fn combineMetrics(archivedMetrics: &ServiceMetrics, currentMetrics: &ServiceMetrics) -> (result:
    ServiceMetrics)
    ensures
        result == combined(*archivedMetrics, *currentMetrics),
{
    ServiceMetrics {
        acceptedConnections: archivedMetrics.acceptedConnections.saturating_add(
            currentMetrics.acceptedConnections,
        ),
        activeConnections: currentMetrics.activeConnections,
        failedConnections: archivedMetrics.failedConnections.saturating_add(
            currentMetrics.failedConnections,
        ),
        bytesUp: archivedMetrics.bytesUp.saturating_add(currentMetrics.bytesUp),
        bytesDown: archivedMetrics.bytesDown.saturating_add(currentMetrics.bytesDown),
        udpPacketsUp: archivedMetrics.udpPacketsUp.saturating_add(currentMetrics.udpPacketsUp),
        udpPacketsDown: archivedMetrics.udpPacketsDown.saturating_add(
            currentMetrics.udpPacketsDown,
        ),
        droppedUdpPackets: archivedMetrics.droppedUdpPackets.saturating_add(
            currentMetrics.droppedUdpPackets,
        ),
    }
}

/// Adds the counters of two data planes that run at the same time; both may hold active
/// connections.
pub fn combineConcurrentMetrics(left: &ServiceMetrics, right: &ServiceMetrics) -> (result:
    ServiceMetrics)
    ensures
        result == combinedConcurrent(*left, *right),
{
    let mut combined = combineMetrics(left, right);
    combined.activeConnections = left.activeConnections.saturating_add(right.activeConnections);
    combined
}

/// The metrics that clients see: ended cycles, and the two protocols of the current one.
pub open spec fn visibleMetrics(
    archived: ServiceMetrics,
    socks: Option<ServiceMetrics>,
    http: Option<ServiceMetrics>,
) -> ServiceMetrics {
    combined(
        archived,
        combinedConcurrent(
            match socks {
                Some(metrics) => metrics,
                None => noMetrics(),
            },
            match http {
                Some(metrics) => metrics,
                None => noMetrics(),
            },
        ),
    )
}

/// The metrics that clients see.
pub fn currentMetrics(
    archived: &ServiceMetrics,
    socks: Option<ServiceMetrics>,
    http: Option<ServiceMetrics>,
) -> (result: ServiceMetrics)
    ensures
        result == visibleMetrics(*archived, socks, http),
{
    let left = match socks {
        Some(metrics) => metrics,
        None => ServiceMetrics::default(),
    };
    let right = match http {
        Some(metrics) => metrics,
        None => ServiceMetrics::default(),
    };
    combineMetrics(archived, &combineConcurrentMetrics(&left, &right))
}

/// Archiving cycle by cycle or several cycles at once gives the same counters.
pub proof fn lawCombiningIsAssociative(
    first: ServiceMetrics,
    second: ServiceMetrics,
    third: ServiceMetrics,
)
    ensures
        combined(combined(first, second), third) == combined(first, combined(second, third)),
{
}

/// Counters never run backwards when a cycle is added.
pub proof fn lawCountersNeverDecrease(archived: ServiceMetrics, current: ServiceMetrics)
    ensures
        combined(archived, current).acceptedConnections >= archived.acceptedConnections,
        combined(archived, current).failedConnections >= archived.failedConnections,
        combined(archived, current).bytesUp >= archived.bytesUp,
        combined(archived, current).bytesDown >= archived.bytesDown,
        combined(archived, current).udpPacketsUp >= archived.udpPacketsUp,
        combined(archived, current).udpPacketsDown >= archived.udpPacketsDown,
        combined(archived, current).droppedUdpPackets >= archived.droppedUdpPackets,
{
}

/// Moving the HTTP counters of an ended cycle into the archive does not change what clients see,
/// but for the connections that were active.
pub proof fn lawArchivingHttpKeepsVisibleCounters(
    archived: ServiceMetrics,
    socks: Option<ServiceMetrics>,
    http: ServiceMetrics,
)
    ensures
        ({
            let before = visibleMetrics(archived, socks, Some(http));
            let after = visibleMetrics(combined(archived, http), socks, None);
            &&& before.acceptedConnections == after.acceptedConnections
            &&& before.failedConnections == after.failedConnections
            &&& before.bytesUp == after.bytesUp
            &&& before.bytesDown == after.bytesDown
            &&& before.udpPacketsUp == after.udpPacketsUp
            &&& before.udpPacketsDown == after.udpPacketsDown
            &&& before.droppedUdpPackets == after.droppedUdpPackets
        }),
{
}

/// Counters add up: what was archived and what is counted now, field by field, and only connections of now are
/// active; of two planes that run at once both are.
pub proof fn lawCountersAddUp(archived: ServiceMetrics, current: ServiceMetrics)
    requires
        archived.acceptedConnections + current.acceptedConnections <= u64::MAX,
        archived.failedConnections + current.failedConnections <= u64::MAX,
        archived.activeConnections + current.activeConnections <= u64::MAX,
        archived.bytesUp + current.bytesUp <= u64::MAX,
        archived.bytesDown + current.bytesDown <= u64::MAX,
        archived.udpPacketsUp + current.udpPacketsUp <= u64::MAX,
        archived.udpPacketsDown + current.udpPacketsDown <= u64::MAX,
        archived.droppedUdpPackets + current.droppedUdpPackets <= u64::MAX,
    ensures
        ({
            let sum = combined(archived, current);
            &&& sum.acceptedConnections == archived.acceptedConnections
                + current.acceptedConnections
            &&& sum.failedConnections == archived.failedConnections + current.failedConnections
            &&& sum.activeConnections == current.activeConnections
            &&& sum.bytesUp == archived.bytesUp + current.bytesUp
            &&& sum.bytesDown == archived.bytesDown + current.bytesDown
            &&& sum.udpPacketsUp == archived.udpPacketsUp + current.udpPacketsUp
            &&& sum.udpPacketsDown == archived.udpPacketsDown + current.udpPacketsDown
            &&& sum.droppedUdpPackets == archived.droppedUdpPackets + current.droppedUdpPackets
            &&& combinedConcurrent(archived, current) == (ServiceMetrics {
                activeConnections: (archived.activeConnections
                    + current.activeConnections) as u64,
                ..sum
            })
        }),
{
}

/// What is shown is the archive with both planes that run; a plane that does not run adds nothing.
pub proof fn lawIdlePlaneAddsNothing(archived: ServiceMetrics, socks: ServiceMetrics)
    ensures
        visibleMetrics(archived, Some(socks), None) == combined(archived, socks),
        visibleMetrics(archived, None, Some(socks)) == combined(archived, socks),
        visibleMetrics(archived, None, None) == (ServiceMetrics { activeConnections: 0, ..archived }),
        saturatingSum(u64::MAX, 1) == u64::MAX,
{
}

} // verus!
