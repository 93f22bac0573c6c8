//! Short lessons on the basics of Rust, each one a function whose result is
//! what the lesson shows or writes, stated and proved with Verus.

pub mod basic_input;
pub mod basic_output;
pub mod basics;
pub mod control_flow;
pub mod control_flow_2;
pub mod control_flow_3;
pub mod data_types;
pub mod data_types_2;
pub mod decimal;
pub mod functions;
pub mod guess_number;
pub mod hello_world_complex;
pub mod mutable_and_shadowing;
pub mod references;
pub mod text;
