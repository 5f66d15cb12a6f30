//! WebAssembly Interface Types: the adapter AST, its binary and textual
//! codecs, the adapter interpreter, and the host-call model around them.

pub mod ast;
mod strings;
pub mod wire;
pub mod binary;
pub mod values;
pub mod interpreter;
pub mod host;
pub mod instance;
pub mod text;
pub mod own;
pub mod capi;
pub mod signals;
pub mod kernel;
pub mod imports;
