pub mod utils;
pub mod cellular_automata;
