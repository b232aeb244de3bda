pub mod intensify_operator;
pub mod inter_two_opt_star;
