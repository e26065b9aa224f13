//! Group and boundary components for byte input.
pub mod groups;
pub mod until_end;
