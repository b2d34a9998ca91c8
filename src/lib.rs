pub mod arkworks;
pub mod circuit;
pub mod field;
pub mod laws;
pub mod system;
pub mod translate;

pub use circuit::NoNameCircuit;
