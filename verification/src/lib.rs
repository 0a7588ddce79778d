//! Perspective-aware text generation for MUDs and interactive fiction.

pub mod text;

pub mod grammar;
pub mod models;
pub mod context;
pub mod resolve;
pub mod keymap;
pub mod debug;
pub mod permutations;
pub mod evaluator;
pub mod rendering;
pub mod test_sets;
pub mod tester;
pub mod parser;
pub mod engine;
pub mod groups;
pub mod tags;
pub mod laws;
pub mod pronouns;
pub mod render;
pub mod narrative;
pub mod verbs;
pub mod template_keys;
pub mod expressions;
pub mod template;
