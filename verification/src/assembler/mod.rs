//! The assembler: from source text over tokens to a word image.
pub mod asm_ins;
pub mod directive;
pub mod syntax;
pub mod token;
pub mod asm_error;
pub mod lexer;
pub mod symbols;
pub mod encoding;
pub mod passes;
pub mod assembler;
pub mod text;
