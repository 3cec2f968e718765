//! A deterministic finite automaton: its definition, a loader from a JSON
//! document, a transition-table renderer and a word evaluator.

pub mod automaton;
pub mod engine;
pub mod json;
pub mod loader;
pub mod table;

pub use automaton::DFA;
pub use engine::{check_word, evaluate, Evaluation};
pub use json::Json;
pub use loader::{dfa_from_json, load_dfa, Field, LoadError};
pub use table::{func_table, render_table};
