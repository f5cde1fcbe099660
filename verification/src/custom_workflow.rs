//! Workflows that are described in the configuration: how a command calls one,
//! what its steps are, and how it is carried out.
pub mod calling;
pub mod context;
pub mod definition;
pub mod execution;
pub mod operation;
pub mod planning;
pub mod steps;
