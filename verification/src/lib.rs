//! The verified core of a smart-contract compiler back end.
//!
//! The heart of it rebuilds a control-flow graph from legacy stack-machine
//! assembly: [`block`] cuts a flat stream of instructions into basic blocks,
//! [`region`] ties the blocks of one code region together by predecessor
//! edges, and [`stack`] and [`element`] replay each instruction on a symbolic
//! operand stack, so that every element can be emitted against registers.
//! Around it stand the contract data ([`contract`]) and the optimizer
//! settings of the standard JSON input ([`optimizer`]).

pub mod bindings;
pub mod block;
pub mod contract;
pub mod element;
pub mod error;
pub mod instruction;
pub mod key;
pub mod numeral;
pub mod optimizer;
pub mod predecessors;
pub mod region;
pub mod render;
pub mod stack;
