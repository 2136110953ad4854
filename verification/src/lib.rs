//! A small ahead-of-time compiler that translates a toy imperative language
//! into RISC-V RV32IM assembly text.
//!
//! The pipeline runs strictly left to right, each stage a total function
//! over plain values: lexical chunking ([`chunker`]), tokenization
//! ([`tokenizer`]), recursive descent parsing ([`parser`]), scope-aware
//! semantic analysis ([`semantic`]) and stack-machine code generation
//! ([`riscv`]).  [`compiler::compile`] wires the stages together: source
//! text in, assembly text (or one descriptive error) out.
#![verifier::loop_isolation(false)]

pub mod ast;
pub mod chars;
pub mod chunker;
pub mod compiler;
pub mod context;
pub mod numerals;
pub mod parser;
pub mod riscv;
pub mod semantic;
pub mod tokenizer;
