pub mod global_constraint;
pub mod maximum_activities_constraint;
pub mod maximum_working_duration_constraint;
pub mod relation_constraint;
pub mod route_constraint;
pub mod skill_constraint;
pub mod time_window_constraint;
pub mod transport_cost_constraint;
pub mod unassigned_job_constraint;
pub mod waiting_duration_constraint;
