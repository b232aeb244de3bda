pub mod enumerate;
pub mod mixed_exchange;
pub mod or_opt;
pub mod relocate;
pub mod swap;
pub mod two_opt;
pub mod inter_relocate;
pub mod inter_swap;
pub mod inter_or_opt;
pub mod inter_two_opt_star;
pub mod cross_exchange;
pub mod inter_mixed_exchange;
pub mod inter_reverse_two_opt;
pub mod swap_star;
pub mod local_search_move;
pub mod laws;
pub mod placement;
