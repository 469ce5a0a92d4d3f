//! The tree and list shapes that the compiler stages exchange: the C
//! abstract syntax tree, the three-address intermediate representation,
//! and the abstract x86-64 assembly.

pub mod asm_nodes;
pub mod c_nodes;
pub mod tacky_nodes;
