pub mod arrays;
pub mod blocks;
pub mod classes;
pub mod classish;
pub mod classish_statements;
pub mod closures;
pub mod control_flow;
pub mod data_type;
pub mod declarations;
pub mod functions;
pub mod grouping;
pub mod identifiers;
pub mod invariants;
pub mod listed;
pub mod loops;
pub mod modifiers;
pub mod namespaces;
pub mod operators;
pub mod outcome;
pub mod parameters;
pub mod precedences;
pub mod program;
pub mod strings;
pub mod structures;
pub mod try_block;
pub mod utils;
