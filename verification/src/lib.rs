//! Verified core of a vehicle-routing optimizer: the moves of the local
//! search and their enumeration, the string ruin, the candidate insertions of
//! a job and the constraint catalogue, all stated over the sequences of
//! activities of the routes.

pub mod problem;
pub mod solver;
