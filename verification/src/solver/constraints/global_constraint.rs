use vstd::prelude::*;

use crate::solver::constraints::transport_cost_constraint::TransportCostConstraint;
use crate::solver::constraints::unassigned_job_constraint::UnassignedJobConstraint;
use crate::solver::score_level::ScoreLevel;

verus! {

/// The constraints scored on the whole solution.
pub enum GlobalConstraintType {
    TransportCost(TransportCostConstraint),
    UnassignedJobCost(UnassignedJobConstraint),
}

impl GlobalConstraintType {
    pub fn constraint_name(&self) -> (r: &'static str)
        ensures
            r@ == (match self {
                GlobalConstraintType::TransportCost(_) => "transport_cost"@,
                GlobalConstraintType::UnassignedJobCost(_) => "unassigned_job_cost"@,
            }),
    {
        match self {
            Self::TransportCost(_) => "transport_cost",
            Self::UnassignedJobCost(_) => "unassigned_job_cost",
        }
    }

    /// The level of the constraint: travel cost is soft, unassigned jobs are
    /// hard.
    pub fn score_level(&self) -> (r: ScoreLevel)
        ensures
            r == (match self {
                GlobalConstraintType::TransportCost(_) => ScoreLevel::Soft,
                GlobalConstraintType::UnassignedJobCost(_) => ScoreLevel::Hard,
            }),
    {
        match self {
            Self::TransportCost(constraint) => constraint.score_level(),
            Self::UnassignedJobCost(constraint) => constraint.score_level(),
        }
    }
}

} // verus!
