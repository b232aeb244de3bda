use vstd::prelude::*;

verus! {

/// Index of a job of the problem.
#[derive(Clone, Copy, Debug, PartialEq, Eq, Hash, Structural)]
pub struct JobIdx(pub usize);

impl JobIdx {
    pub fn new(index: usize) -> (r: JobIdx)
        ensures
            r.0 == index,
    {
        JobIdx(index)
    }

    pub fn get(&self) -> (r: usize)
        ensures
            r == self.0,
    {
        self.0
    }
}

/// One activity of a route: a service, or the pickup or the delivery of a
/// shipment.
#[derive(Clone, Copy, Debug, PartialEq, Eq, Hash, Structural)]
pub enum ActivityId {
    Service(JobIdx),
    ShipmentPickup(JobIdx),
    ShipmentDelivery(JobIdx),
}

impl ActivityId {
    /// The job an activity belongs to.
    pub open spec fn spec_job_id(self) -> JobIdx {
        match self {
            ActivityId::Service(j) => j,
            ActivityId::ShipmentPickup(j) => j,
            ActivityId::ShipmentDelivery(j) => j,
        }
    }

    pub fn service(index: usize) -> (r: ActivityId)
        ensures
            r == ActivityId::Service(JobIdx(index)),
    {
        ActivityId::Service(JobIdx(index))
    }

    pub fn shipment_pickup(index: usize) -> (r: ActivityId)
        ensures
            r == ActivityId::ShipmentPickup(JobIdx(index)),
    {
        ActivityId::ShipmentPickup(JobIdx(index))
    }

    pub fn shipment_delivery(index: usize) -> (r: ActivityId)
        ensures
            r == ActivityId::ShipmentDelivery(JobIdx(index)),
    {
        ActivityId::ShipmentDelivery(JobIdx(index))
    }

    pub fn job_id(&self) -> (r: JobIdx)
        ensures
            r == self.spec_job_id(),
    {
        match self {
            ActivityId::Service(j) => *j,
            ActivityId::ShipmentPickup(j) => *j,
            ActivityId::ShipmentDelivery(j) => *j,
        }
    }

    pub fn is_shipment(&self) -> (r: bool)
        ensures
            r == !(*self is Service),
    {
        match self {
            ActivityId::Service(_) => false,
            _ => true,
        }
    }
}

} // verus!
