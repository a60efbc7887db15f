pub mod bytecode;
