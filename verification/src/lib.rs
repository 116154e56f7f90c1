//! An assembler and a virtual machine for the LC-3, a 16-bit teaching
//! architecture.
//!
//! [`assembler`] turns assembly source into a word image, [`vm`] loads and
//! executes such an image, and [`io`] is the character channel that the
//! machine's traps talk to. [`console`] holds what a host needs to show the
//! machine and to feed it.
pub mod assembler;
pub mod console;
pub mod io;
pub mod vm;

use crate::assembler::assembler::source_tokens;
use crate::assembler::lexer::Lexer;
use crate::assembler::syntax::{patterns_compile, PatternError};
use crate::assembler::token::TokenCollection;
use vstd::prelude::*;

verus! {

/// The tokens of the source `file`, for a host that shows the source with
/// its tokens marked.
pub fn get_tokens(file: String) -> (collection: Result<TokenCollection, PatternError>)
    ensures
        collection.is_ok() == patterns_compile(),
        collection matches Ok(c) ==> c.tokens.deep_view() == source_tokens(file@),
{
    let mut lexer = Lexer::new()?;
    Ok(TokenCollection { tokens: lexer.run_file(file.as_str()) })
}

} // verus!
