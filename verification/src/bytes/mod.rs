//! Specialized parsers for bytes.
pub mod components;
pub mod matchers;
pub mod primitives;
pub mod token;
