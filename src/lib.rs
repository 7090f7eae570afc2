pub mod ast;
pub mod code;
pub mod compiler;
pub mod object;
pub mod laws;
