//! The assembler as a whole: from source text to a word image.
use super::asm_error::{AsmError, AsmErrorView};
use super::lexer::{lex_errors, lex_tokens, Lexer};
use super::passes::{
    assembly_errors, assembly_image, collect_pass, encode_pass, first_pass, group,
    lemma_clean_image_fits,
};
use super::symbols::SymbolTable;
use super::syntax::{patterns_compile, regex_compiles, PatternError};
use super::text::lines_of;
use super::token::{Token, TokenView};
use crate::vm::memory::image_fits;
use vstd::prelude::*;

verus! {

/// The tokens of the source `text`.
pub open spec fn source_tokens(text: Seq<char>) -> Seq<TokenView> {
    lex_tokens(lines_of(text))
}

/// The diagnostics of the source `text`: those of the lexer, then those of
/// the two passes.
pub open spec fn source_errors(text: Seq<char>) -> Seq<AsmErrorView> {
    lex_errors(lines_of(text)) + assembly_errors(source_tokens(text))
}

/// Whether the source `text` has an image: nothing is wrong with it.
pub open spec fn has_image(text: Seq<char>) -> bool {
    source_errors(text).len() == 0
}

/// Every malformed line of a source is one diagnostic, on top of what the
/// passes find in the rest, and a source with a malformed line has no
/// image.
pub proof fn lemma_malformed_lines(text: Seq<char>)
    ensures
        lex_errors(lines_of(text)).len() == super::lexer::malformed_count(lines_of(text)),
        source_errors(text).len() == super::lexer::malformed_count(lines_of(text))
            + assembly_errors(source_tokens(text)).len(),
        super::lexer::malformed_count(lines_of(text)) > 0 ==> !has_image(text),
{
    super::lexer::lemma_one_error_per_malformed_line(lines_of(text));
}

/// The assembler, with the symbols and the diagnostics of its last run.
pub struct Asm {
    pub lexer: Lexer,
    pub symbol_table: SymbolTable,
    pub errors: Vec<AsmError>,
}

impl Asm {
    /// An assembler that has read nothing. It cannot be had if a pattern of
    /// the syntax does not compile.
    pub fn new() -> (made: Result<Asm, PatternError>)
        ensures
            made.is_ok() == patterns_compile(),
            made matches Err(e) ==> !regex_compiles(e.pattern@),
            made matches Ok(a) ==> a.errors@.len() == 0 && a.symbol_table@ == Map::<
                Seq<char>,
                u16,
            >::empty(),
    {
        match Lexer::new() {
            Ok(lexer) => Ok(Asm { lexer, symbol_table: SymbolTable::new(), errors: Vec::new() }),
            Err(e) => Err(e),
        }
    }

    /// Assembles the source `file`. The result is the image: the origin,
    /// then the words of the program. There is an image if and only if
    /// neither the lexer nor a pass found an error; `errors` holds what they
    /// found, and `symbol_table` the labels of the program.
    pub fn run(&mut self, file: String) -> (image: Option<Vec<u16>>)
        ensures
            final(self).errors.deep_view() == source_errors(file@),
            final(self).symbol_table@ == first_pass(source_tokens(file@)).symbols,
            image.is_some() == has_image(file@),
            image matches Some(words) ==> words@ == assembly_image(source_tokens(file@))
                && image_fits(words@),
    {
        let tokens = self.lexer.run_file(file.as_str());
        self.errors = Vec::new();
        let mut copied: usize = 0;
        while copied < self.lexer.errors.len()
            invariant
                copied <= self.lexer.errors@.len(),
                self.lexer.errors.deep_view() == lex_errors(lines_of(file@)),
                self.errors@.len() == copied,
                forall|i: int| 0 <= i < copied ==> self.errors@[i]@ == self.lexer.errors@[i]@,
            decreases self.lexer.errors@.len() - copied,
        {
            let error = self.lexer.errors[copied].duplicate();
            self.errors.push(error);
            copied += 1;
        }
        self.assemble(&tokens)
    }

    /// Runs the two passes over `tokens`. What they find is appended to
    /// `errors`. The result is the image if `errors` is empty afterwards.
    pub fn assemble(&mut self, tokens: &Vec<Token>) -> (image: Option<Vec<u16>>)
        ensures
            final(self).errors.deep_view() == old(self).errors.deep_view() + assembly_errors(
                tokens.deep_view(),
            ),
            final(self).symbol_table@ == first_pass(tokens.deep_view()).symbols,
            image.is_some() == (final(self).errors@.len() == 0),
            image matches Some(words) ==> words@ == assembly_image(tokens.deep_view())
                && image_fits(words@),
    {
        let ghost views = tokens.deep_view();
        let items = group(tokens);
        let mut collector = collect_pass(tokens, &items);
        let mut encoder = encode_pass(tokens, &items, &collector);
        self.errors.append(&mut collector.errors);
        self.errors.append(&mut encoder.errors);
        self.symbol_table = collector.symbols;
        if self.errors.len() > 0 {
            return None;
        }
        proof {
            lemma_clean_image_fits(views);
        }
        match collector.origin {
            Some(origin) => {
                let mut image: Vec<u16> = Vec::new();
                image.push(origin);
                image.append(&mut encoder.words);
                Some(image)
            },
            None => None,
        }
    }
}

/// The bytes of `image` as they are written to a file: each word as two
/// bytes, the high byte first.
pub open spec fn image_bytes_spec(image: Seq<u16>) -> Seq<u8> {
    Seq::new(
        2 * image.len(),
        |i: int|
            if i % 2 == 0 {
                (image[i / 2] / 256) as u8
            } else {
                (image[i / 2] % 256) as u8
            },
    )
}

/// The bytes of `image` as they are written to a file: each word as two
/// bytes, the high byte first.
pub fn image_bytes(image: &Vec<u16>) -> (bytes: Vec<u8>)
    ensures
        bytes@ == image_bytes_spec(image@),
{
    let mut bytes: Vec<u8> = Vec::new();
    let mut index: usize = 0;
    while index < image.len()
        invariant
            index <= image@.len(),
            bytes@.len() == 2 * index,
            forall|i: int|
                0 <= i < 2 * index ==> #[trigger] bytes@[i] == image_bytes_spec(image@)[i],
        decreases image@.len() - index,
    {
        let word = image[index];
        bytes.push((word / 256) as u8);
        bytes.push((word % 256) as u8);
        index += 1;
    }
    bytes
}

/// The image that the bytes of a file hold: each two bytes are one word,
/// the high byte first.
pub open spec fn image_of_bytes(bytes: Seq<u8>) -> Seq<u16> {
    Seq::new(bytes.len() / 2, |i: int| (bytes[2 * i] * 256 + bytes[2 * i + 1]) as u16)
}

/// Reading back what was written gives the same image.
pub proof fn lemma_image_bytes_round_trip(image: Seq<u16>)
    ensures
        image_bytes_spec(image).len() == 2 * image.len(),
        image_of_bytes(image_bytes_spec(image)) == image,
{
}

/// The image that the bytes of a file hold, or `None` if the bytes do not
/// pair up to words.
pub fn image_from_bytes(bytes: &Vec<u8>) -> (image: Option<Vec<u16>>)
    ensures
        image.is_some() == (bytes@.len() % 2 == 0),
        image matches Some(words) ==> words@ == image_of_bytes(bytes@),
{
    if bytes.len() % 2 != 0 {
        return None;
    }
    let mut words: Vec<u16> = Vec::new();
    let mut index: usize = 0;
    while index < bytes.len()
        invariant
            bytes@.len() % 2 == 0,
            index % 2 == 0,
            index <= bytes@.len(),
            words@.len() == index / 2,
            forall|i: int|
                0 <= i < words@.len() ==> #[trigger] words@[i] == image_of_bytes(bytes@)[i],
        decreases bytes@.len() - index,
    {
        words.push(bytes[index] as u16 * 256 + bytes[index + 1] as u16);
        index += 2;
    }
    Some(words)
}

} // verus!
