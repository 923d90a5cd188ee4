//! What the transport is for, said of its inputs and results alone.

pub mod arriving;
pub mod keeping;
pub mod leaving;
pub mod reading;
pub mod showing;
