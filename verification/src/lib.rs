pub mod codegen;
pub mod vm;
