//! A compact binary intermediate representation for a small statically typed
//! compiler, together with the engine that lowers it to native code, and the
//! lexer and parser of the surface syntax.

pub mod backend;
pub mod bc;
pub mod buf;
pub mod bytecode;
pub mod codegen;
pub mod encode;
pub mod error;
pub mod frontend_ast;
pub mod frontend_lexer;
pub mod frontend_parser;
pub mod frontend_token;
pub mod ir_bytecode;
pub mod ir_op;
pub mod ir_ty;
pub mod lower;
pub mod native;
pub mod phantom;
pub mod prelude;
pub mod round_trip;
pub mod sexp;
pub mod slice_ext;
pub mod text;
pub mod typing;
pub mod u6;
pub mod wire;
