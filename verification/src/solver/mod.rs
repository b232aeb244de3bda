pub mod accepted_solution;
pub mod alns_weights;
pub mod constraints;
pub mod insertion;
pub mod insertion_context;
pub mod intensify;
pub mod ls;
pub mod random;
pub mod recreate;
pub mod ruin;
pub mod score_level;
pub mod solution;
