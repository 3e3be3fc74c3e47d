//! Verified core of the Vo language runtime: bytecode format, value metadata,
//! channels and ports, byte-slice library, signature and constant parsers.

pub mod instruction;
pub mod value;
pub mod interface;
pub mod bytes;
pub mod port;
pub mod channel;
pub mod text;
pub mod vo_sig;
pub mod vo_const;
pub mod strbuf;
pub mod vo_types;
pub mod output;
pub mod codegen_error;
pub mod wasm;
pub mod bytecode;
pub mod jit;
pub mod vfs;
pub mod heap;
pub mod fiber;
pub mod exec;
pub mod regexp;
pub mod value_fmt;
pub mod gc_scan;
pub mod launcher;
pub mod type_table;
