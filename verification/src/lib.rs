//! A small verified library around two pieces: a grep-style line search
//! (case-sensitive and case-insensitive substring matching over text) and a
//! generic memoizing evaluator that caches the outputs of a pure unary
//! computation by input value.

mod cacher;
mod closures;
mod config;
mod search;
mod workout;

pub use cacher::exact_duplication;
pub use cacher::lemma_u32_exact_duplication;
pub use cacher::Cacher;
pub use closures::first_closure_example;
pub use closures::second_closure_example;
pub use config::Config;
pub use search::contains_at;
pub use search::contains_seq;
pub use search::contains_str;
pub use search::line_end;
pub use search::lowered;
pub use search::matching;
pub use search::matching_lines;
pub use search::matching_lowered;
pub use search::next_newline;
pub use search::search;
pub use search::search_case_insensitive;
pub use search::spec_lines;
pub use search::spec_lines_from;
pub use search::spec_search;
pub use search::spec_search_case_insensitive;
pub use search::split_lines;
pub use search::view_of_lines;
pub use workout::generate_workout_plan;
pub use workout::spec_workout_plan;
pub use workout::WorkoutPlan;
