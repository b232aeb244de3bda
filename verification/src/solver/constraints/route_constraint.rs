use vstd::prelude::*;

use crate::solver::constraints::maximum_activities_constraint::MaximumActivitiesConstraint;
use crate::solver::constraints::maximum_working_duration_constraint::MaximumWorkingDurationConstraint;
use crate::solver::constraints::waiting_duration_constraint::WaitingDurationConstraint;

verus! {

/// Keeps the load of a route within the capacity of its vehicle.
pub struct CapacityConstraint;

/// Keeps a route within the shift of its vehicle.
pub struct ShiftConstraint;

/// Counts the fixed cost of the vehicles in use.
pub struct VehicleCostConstraint;

/// The constraints scored route by route.
pub enum RouteConstraintType {
    Capacity(CapacityConstraint),
    Shift(ShiftConstraint),
    MaximumWorkingDuration(MaximumWorkingDurationConstraint),
    WaitingDuration(WaitingDurationConstraint),
    VehicleCost(VehicleCostConstraint),
    MaximumJobs(MaximumActivitiesConstraint),
}

impl RouteConstraintType {
    pub fn constraint_name(&self) -> (r: &'static str)
        ensures
            r@ == (match self {
                RouteConstraintType::Capacity(_) => "capacity"@,
                RouteConstraintType::Shift(_) => "shift"@,
                RouteConstraintType::WaitingDuration(_) => "waiting_duration"@,
                RouteConstraintType::VehicleCost(_) => "vehicle_cost"@,
                RouteConstraintType::MaximumWorkingDuration(_) => "maximum_working_duration"@,
                RouteConstraintType::MaximumJobs(_) => "maximum_activities"@,
            }),
    {
        match self {
            RouteConstraintType::Capacity(_) => "capacity",
            RouteConstraintType::Shift(_) => "shift",
            RouteConstraintType::WaitingDuration(_) => "waiting_duration",
            RouteConstraintType::VehicleCost(_) => "vehicle_cost",
            RouteConstraintType::MaximumWorkingDuration(_) => "maximum_working_duration",
            RouteConstraintType::MaximumJobs(_) => "maximum_activities",
        }
    }
}

} // verus!
