//! An assembler for the Hack computer: it turns the text of an assembly
//! program into the sixteen-bit words of its instructions.

pub mod assembler;
pub mod encoder;
pub mod error;
pub mod listing;
pub mod resolver;
pub mod symbols;
pub mod text;
pub mod theorems;
pub mod tokenizer;

pub use assembler::{assemble, Assembler};
pub use encoder::PartiallyAssembledInstruction;
pub use error::{AssembleError, ErrorKind};
pub use listing::render_listing;
pub use symbols::predefined_symbol_table;
pub use tokenizer::AssemblerState;
