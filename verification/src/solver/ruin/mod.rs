pub mod ruin_string;
pub mod ruin_radial;
