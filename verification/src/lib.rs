//! A compiler from a small Python-like language to ZPAQL, the bytecode of
//! ZPAQ archive configurations.

pub mod options;
pub mod error;
pub mod text;
pub mod names;
pub mod slots;
pub mod zpaql;
pub mod ir;
pub mod post_zpaql;
pub mod post_ir;
pub mod post_ir_laws;
pub mod zpaqcfg;
pub mod cache;
pub mod gen_zpaql;
pub mod zpaqlvm;
pub mod symbols;
pub mod ast;
pub mod gen_ir;
pub mod statements;
pub mod sections;
pub mod tok;
pub mod rtok;
pub mod parser;
pub mod compiler;
pub mod empty_laws;
pub mod save_laws;
pub mod run_laws;
pub mod call_laws;
