pub mod best_insertion;
pub mod recreate_params;
pub mod recreate_strategy;
