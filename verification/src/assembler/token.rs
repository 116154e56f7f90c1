//! Tokens: what the lexer hands to the assembler.
use super::asm_ins::OpcodeIns;
use super::directive::Directive;
use vstd::prelude::*;
use vstd::utf8::encode_utf8;

verus! {

/// What a token stands for.
#[derive(Debug, Clone, PartialEq)]
pub enum TokenType {
    /// A name: where it opens a line it is defined there, behind an
    /// instruction it is referred to.
    Label(String),
    Instruction(OpcodeIns),
    Directive(Directive),
    /// An immediate value as a raw pattern of sixteen bits.
    Number(i16),
    /// The text of a string literal, without its quotes.
    String(String),
    /// The number of a register.
    Register(u16),
    /// A word that looked like something it then was not.
    INVALID(String),
}

/// The mathematical content of a [`TokenType`].
pub enum TokenKind {
    Label(Seq<char>),
    Instruction(OpcodeIns),
    Directive(Directive),
    Number(i16),
    Text(Seq<char>),
    Register(u16),
    Invalid(Seq<char>),
}

impl View for TokenType {
    type V = TokenKind;

    open spec fn view(&self) -> TokenKind {
        match *self {
            TokenType::Label(name) => TokenKind::Label(name@),
            TokenType::Instruction(ins) => TokenKind::Instruction(ins),
            TokenType::Directive(directive) => TokenKind::Directive(directive),
            TokenType::Number(value) => TokenKind::Number(value),
            TokenType::String(text) => TokenKind::Text(text@),
            TokenType::Register(index) => TokenKind::Register(index),
            TokenType::INVALID(word) => TokenKind::Invalid(word@),
        }
    }
}

/// A token and the place in the source that it was read from.
#[derive(Debug, Clone, PartialEq)]
pub struct Token {
    pub inner_token: TokenType,
    /// Offset in bytes, within the line, of the first byte behind the token.
    pub to: usize,
    /// Offset in bytes, within the line, of the token's first byte.
    pub from: usize,
    /// Number of the line, counted from one.
    pub line_num: usize,
    /// The word as it stands in the source.
    pub original_match: String,
}

/// The mathematical content of a [`Token`].
pub struct TokenView {
    pub kind: TokenKind,
    pub to: usize,
    pub from: usize,
    pub line_num: usize,
    pub text: Seq<char>,
}

impl View for Token {
    type V = TokenView;

    open spec fn view(&self) -> TokenView {
        TokenView {
            kind: self.inner_token@,
            to: self.to,
            from: self.from,
            line_num: self.line_num,
            text: self.original_match@,
        }
    }
}

impl DeepView for Token {
    type V = TokenView;

    open spec fn deep_view(&self) -> TokenView {
        self@
    }
}

/// The tokens of one source file.
pub struct TokenCollection {
    pub tokens: Vec<Token>,
}

impl TokenType {
    /// A copy of this value.
    pub fn duplicate(&self) -> (copy: TokenType)
        ensures
            copy@ == self@,
    {
        match self {
            TokenType::Label(name) => TokenType::Label(name.clone()),
            TokenType::Instruction(ins) => TokenType::Instruction(*ins),
            TokenType::Directive(directive) => TokenType::Directive(*directive),
            TokenType::Number(value) => TokenType::Number(*value),
            TokenType::String(text) => TokenType::String(text.clone()),
            TokenType::Register(index) => TokenType::Register(*index),
            TokenType::INVALID(word) => TokenType::INVALID(word.clone()),
        }
    }
}

impl Token {
    /// The token `token` for the word `string`, where `index` is the offset
    /// behind the separator that follows the word: the word ends one byte
    /// before `index` and starts as many bytes before that as it is long.
    pub fn new(index: usize, line_num: i32, string: &str, token: TokenType) -> (made: Token)
        requires
            index >= 1 + encode_utf8(string@).len(),
        ensures
            made@ == (TokenView {
                kind: token@,
                to: (index - 1) as usize,
                from: (index - 1 - encode_utf8(string@).len()) as usize,
                line_num: line_num as usize,
                text: string@,
            }),
    {
        let to = index - 1;
        let from = to - string.len();
        Token {
            inner_token: token,
            to,
            from,
            line_num: #[verifier::truncate] (line_num as usize),
            original_match: string.to_owned(),
        }
    }

    /// A token that stands for nothing, at no place.
    pub fn get_useless_token() -> (made: Token)
        ensures
            made@ == (TokenView {
                kind: TokenKind::Invalid(Seq::empty()),
                to: 0,
                from: 0,
                line_num: 0,
                text: Seq::empty(),
            }),
    {
        Token {
            inner_token: TokenType::INVALID(String::new()),
            from: 0,
            to: 0,
            line_num: 0,
            original_match: String::new(),
        }
    }

    /// A copy of this token.
    pub fn duplicate(&self) -> (copy: Token)
        ensures
            copy@ == self@,
    {
        Token {
            inner_token: self.inner_token.duplicate(),
            to: self.to,
            from: self.from,
            line_num: self.line_num,
            original_match: self.original_match.clone(),
        }
    }
}

/// A copy of `tokens`.
pub fn duplicate_tokens(tokens: &Vec<Token>) -> (copy: Vec<Token>)
    ensures
        copy.deep_view() == tokens.deep_view(),
{
    let mut copy: Vec<Token> = Vec::new();
    let mut index: usize = 0;
    while index < tokens.len()
        invariant
            index <= tokens.len(),
            copy.len() == index,
            forall|i: int| 0 <= i < index ==> copy[i]@ == tokens[i]@,
        decreases tokens.len() - index,
    {
        copy.push(tokens[index].duplicate());
        index += 1;
    }
    copy
}

} // verus!
