//! The lexer: from source lines to tokens.
//!
//! A line that is blank or a comment is skipped. A line that has neither the
//! shape of an instruction nor that of a directive is reported and skipped.
//! Any other line is cut into words, and each word that stands for something
//! becomes a token.
use super::asm_error::{AsmError, AsmErrorView, ErrorType, SYNTAX_MESSAGE};
use super::asm_ins::{instruction_named, OpcodeIns};
use super::directive::{directive_named, Directive};
use super::syntax::{
    is_directive_line, is_directive_name, is_ignorable, is_immediate, is_instruction_line,
    is_instruction_name, is_label, is_register, is_string_whole, patterns_compile, regex_compiles,
    PatternError, SyntaxChecker,
};
use super::text::{
    all_digits, digit_value, is_digit, lines_of, number, push_char, read_number, split_lines,
    to_chars, upper_text,
};
use super::token::{duplicate_tokens, Token, TokenKind, TokenType, TokenView};
use vstd::pervasive::unreached;
use vstd::prelude::*;
use vstd::string::*;
use vstd::utf8::{encode_scalar, encode_utf8};

verus! {

/// Whether `c` separates words: white space or a comma.
pub open spec fn is_delimiter(c: char) -> bool {
    c == ' ' || c == '\t' || c == '\n' || c == '\r' || c == '\x0C' || c == ','
}

/// The first position at or behind `from` that holds no delimiter, or the
/// end of the line.
pub open spec fn skip_delimiters(line: Seq<char>, from: int) -> int
    decreases line.len() - from,
{
    if from < 0 || from >= line.len() || !is_delimiter(line[from]) {
        from
    } else {
        skip_delimiters(line, from + 1)
    }
}

/// The first position at or behind `from` that holds a delimiter, or the end
/// of the line.
pub open spec fn plain_end(line: Seq<char>, from: int) -> int
    decreases line.len() - from,
{
    if from < 0 || from >= line.len() || is_delimiter(line[from]) {
        from
    } else {
        plain_end(line, from + 1)
    }
}

/// The position behind the first quote at or behind `from`, or the end of
/// the line.
pub open spec fn quoted_end(line: Seq<char>, from: int) -> int
    decreases line.len() - from,
{
    if from < 0 || from >= line.len() {
        from
    } else if line[from] == '"' {
        from + 1
    } else {
        quoted_end(line, from + 1)
    }
}

/// Where the word that starts at `start` ends. A word that starts with a
/// quote runs to the next quote, white space and commas included; any other
/// word runs to the next delimiter.
pub open spec fn word_end(line: Seq<char>, start: int) -> int {
    if line[start] == '"' {
        quoted_end(line, start + 1)
    } else {
        plain_end(line, start + 1)
    }
}

/// A word ends behind its start and within the line.
pub proof fn lemma_word_end(line: Seq<char>, start: int)
    requires
        0 <= start < line.len(),
    ensures
        start < word_end(line, start) <= line.len(),
{
    lemma_plain_end(line, start + 1);
    lemma_quoted_end(line, start + 1);
}

/// A plain word ends at or behind `from` and within the line.
proof fn lemma_plain_end(line: Seq<char>, from: int)
    requires
        0 <= from <= line.len(),
    ensures
        from <= plain_end(line, from) <= line.len(),
    decreases line.len() - from,
{
    if from < line.len() && !is_delimiter(line[from]) {
        lemma_plain_end(line, from + 1);
    }
}

/// A quoted word ends at or behind `from` and within the line.
proof fn lemma_quoted_end(line: Seq<char>, from: int)
    requires
        0 <= from <= line.len(),
    ensures
        from <= quoted_end(line, from) <= line.len(),
    decreases line.len() - from,
{
    if from < line.len() && line[from] != '"' {
        lemma_quoted_end(line, from + 1);
    }
}

/// Skipping delimiters moves forward and stays within the line.
pub proof fn lemma_skip_delimiters(line: Seq<char>, from: int)
    requires
        0 <= from <= line.len(),
    ensures
        from <= skip_delimiters(line, from) <= line.len(),
    decreases line.len() - from,
{
    if from < line.len() && is_delimiter(line[from]) {
        lemma_skip_delimiters(line, from + 1);
    }
}

/// The words of `line` from position `from` on, each as the positions of its
/// first character and of the first character behind it.
pub open spec fn words_from(line: Seq<char>, from: int) -> Seq<(int, int)>
    decreases line.len() - from,
{
    let start = skip_delimiters(line, from);
    if from < 0 || start >= line.len() {
        Seq::empty()
    } else {
        proof {
            lemma_skip_delimiters(line, from);
            lemma_word_end(line, start);
        }
        seq![(start, word_end(line, start))] + words_from(line, word_end(line, start))
    }
}

/// The words of `line`.
pub open spec fn words(line: Seq<char>) -> Seq<(int, int)> {
    words_from(line, 0)
}

/// Whether `c` separates words.
fn delimits(c: char) -> (yes: bool)
    ensures
        yes == is_delimiter(c),
{
    c == ' ' || c == '\t' || c == '\n' || c == '\r' || c == '\x0C' || c == ','
}

/// Cuts `line` into words.
pub fn split_words(line: &Vec<char>) -> (spans: Vec<(usize, usize)>)
    ensures
        spans@.len() == words(line@).len(),
        forall|k: int|
            0 <= k < spans@.len() ==> {
                &&& (#[trigger] spans@[k]).0 == words(line@)[k].0
                &&& spans@[k].1 == words(line@)[k].1
                &&& spans@[k].0 < spans@[k].1 <= line@.len()
            },
{
    let mut spans: Vec<(usize, usize)> = Vec::new();
    let mut index: usize = 0;
    loop
        invariant
            index <= line@.len(),
            words(line@).len() == spans@.len() + words_from(line@, index as int).len(),
            forall|k: int|
                0 <= k < spans@.len() ==> {
                    &&& (#[trigger] spans@[k]).0 == words(line@)[k].0
                    &&& spans@[k].1 == words(line@)[k].1
                    &&& spans@[k].0 < spans@[k].1 <= line@.len()
                },
            forall|k: int|
                0 <= k < words_from(line@, index as int).len() ==> words(line@)[spans@.len() + k]
                    == #[trigger] words_from(line@, index as int)[k],
        decreases line@.len() - index,
    {
        let ghost from = index;
        while index < line.len() && delimits(line[index])
            invariant
                from <= index <= line@.len(),
                skip_delimiters(line@, from as int) == skip_delimiters(line@, index as int),
            decreases line@.len() - index,
        {
            index += 1;
        }
        if index >= line.len() {
            return spans;
        }
        let start = index;
        let quoted = line[index] == '"';
        index += 1;
        if quoted {
            while index < line.len() && line[index] != '"'
                invariant
                    start < index <= line@.len(),
                    quoted_end(line@, start + 1) == quoted_end(line@, index as int),
                decreases line@.len() - index,
            {
                index += 1;
            }
            if index < line.len() {
                index += 1;
            }
        } else {
            while index < line.len() && !delimits(line[index])
                invariant
                    start < index <= line@.len(),
                    plain_end(line@, start + 1) == plain_end(line@, index as int),
                decreases line@.len() - index,
            {
                index += 1;
            }
        }
        proof {
            let rest = words_from(line@, from as int);
            assert(rest[0] == (start as int, index as int));
            assert forall|k: int| 0 <= k < words_from(line@, index as int).len() implies words(
                line@,
            )[spans@.len() + 1 + k] == #[trigger] words_from(line@, index as int)[k] by {
                assert(rest[k + 1] == words_from(line@, index as int)[k]);
            }
        }
        spans.push((start, index));
    }
}

/// How many bytes the characters of `line` in front of position `index`
/// take up in UTF-8.
pub open spec fn byte_offset(line: Seq<char>, index: int) -> nat {
    encode_utf8(line.take(index)).len()
}

/// The encoding of a text with one more character is the encoding of the
/// text followed by that of the character.
proof fn lemma_encode_push(text: Seq<char>, c: char)
    ensures
        encode_utf8(text.push(c)) == encode_utf8(text) + encode_scalar(c as u32),
    decreases text.len(),
{
    if text.len() == 0 {
        assert(encode_utf8(text.push(c).drop_first()) =~= Seq::<u8>::empty());
    } else {
        lemma_encode_push(text.drop_first(), c);
        assert(text.push(c).drop_first() =~= text.drop_first().push(c));
    }
}

/// Offsets grow with the position, by at least one byte and at most four
/// for each character.
proof fn lemma_byte_offset_step(line: Seq<char>, index: int)
    requires
        0 <= index < line.len(),
    ensures
        byte_offset(line, index + 1) == byte_offset(line, index) + encode_scalar(
            line[index] as u32,
        ).len(),
        1 <= encode_scalar(line[index] as u32).len() <= 4,
{
    assert(line.take(index + 1) =~= line.take(index).push(line[index]));
    lemma_encode_push(line.take(index), line[index]);
}

/// A later position has no smaller offset.
proof fn lemma_byte_offset_grows(line: Seq<char>, low: int, high: int)
    requires
        0 <= low <= high <= line.len(),
    ensures
        byte_offset(line, low) <= byte_offset(line, high),
    decreases high - low,
{
    if low < high {
        lemma_byte_offset_grows(line, low, high - 1);
        lemma_byte_offset_step(line, high - 1);
    }
}

/// The number of bytes that `c` takes up in UTF-8.
fn utf8_width(c: char) -> (width: usize)
    ensures
        width == encode_scalar(c as u32).len(),
        1 <= width <= 4,
{
    let code = c as u32;
    if code < 0x80 {
        1
    } else if code < 0x800 {
        2
    } else if code < 0x1_0000 {
        proof {
            vstd::utf8::char_is_scalar(c);
        }
        3
    } else {
        4
    }
}

/// The byte offset of every position of `line`, the end included.
pub fn byte_offsets(line: &str, chars: &Vec<char>) -> (offsets: Vec<usize>)
    requires
        chars@ == line@,
    ensures
        offsets@.len() == line@.len() + 1,
        forall|i: int| 0 <= i <= line@.len() ==> #[trigger] offsets@[i] == byte_offset(line@, i),
{
    let total = line.as_bytes().len();
    assert(line@.take(line@.len() as int) =~= line@);
    let mut offsets: Vec<usize> = Vec::new();
    let mut bytes: usize = 0;
    let mut index: usize = 0;
    offsets.push(0);
    while index < chars.len()
        invariant
            chars@ == line@,
            index <= line@.len(),
            total == byte_offset(line@, line@.len() as int),
            bytes == byte_offset(line@, index as int),
            offsets@.len() == index + 1,
            forall|i: int| 0 <= i <= index ==> #[trigger] offsets@[i] == byte_offset(line@, i),
        decreases line@.len() - index,
    {
        proof {
            lemma_byte_offset_step(line@, index as int);
            lemma_byte_offset_grows(line@, index + 1, line@.len() as int);
        }
        bytes = bytes + utf8_width(chars[index]);
        offsets.push(bytes);
        index += 1;
    }
    offsets
}

/// The register that `word` names: the digit behind its first character.
pub open spec fn register_number(word: Seq<char>) -> Option<u16> {
    if word.len() >= 2 && is_digit(word[1]) {
        Some(digit_value(word[1]) as u16)
    } else {
        None
    }
}

/// `value`, a pattern of sixteen bits, read as a signed number.
pub open spec fn as_signed(value: int) -> i16 {
    if value >= 0x8000 {
        (value - 0x1_0000) as i16
    } else {
        value as i16
    }
}

/// The value of the immediate `word`, as a pattern of sixteen bits.
///
/// Behind `#` stands a decimal number with an optional minus sign, from
/// -32768 to 32767. Behind `x` or `X` stands a hexadecimal number of up to
/// sixteen bits; with its highest bit set it reads as a negative number.
/// Anything else has no value.
pub open spec fn immediate_value(word: Seq<char>) -> Option<i16> {
    if word.len() >= 2 && word[0] == '#' {
        if word[1] == '-' {
            let digits = word.skip(2);
            if digits.len() > 0 && all_digits(digits, 10) && number(digits, 10) <= 0x8000 {
                Some((-number(digits, 10)) as i16)
            } else {
                None
            }
        } else {
            let digits = word.skip(1);
            if all_digits(digits, 10) && number(digits, 10) <= 0x7FFF {
                Some(number(digits, 10) as i16)
            } else {
                None
            }
        }
    } else if word.len() >= 2 && (word[0] == 'x' || word[0] == 'X') {
        let digits = word.skip(1);
        if all_digits(digits, 16) && number(digits, 16) <= 0xFFFF {
            Some(as_signed(number(digits, 16)))
        } else {
            None
        }
    } else {
        None
    }
}

/// Which shapes a word has.
#[derive(Clone, Copy, Debug, PartialEq, Eq, Structural)]
pub struct WordShape {
    /// In upper case the word is the mnemonic of an instruction.
    pub instruction_name: bool,
    /// In upper case the word is the name of a directive.
    pub directive_name: bool,
    /// The word names a register.
    pub register: bool,
    /// The word is an immediate value.
    pub immediate: bool,
    /// The word can be a label.
    pub label: bool,
    /// The word is a whole string literal.
    pub string: bool,
}

/// The shapes of `word`.
pub open spec fn shape_of(word: Seq<char>) -> WordShape {
    WordShape {
        instruction_name: is_instruction_name(upper_text(word)),
        directive_name: is_directive_name(upper_text(word)),
        register: is_register(word),
        immediate: is_immediate(word),
        label: is_label(word),
        string: is_string_whole(word),
    }
}

/// What a word of the shapes `shape` stands for, if anything. The shapes
/// are tried in a fixed order: mnemonic, directive name, register,
/// immediate, label, string literal. Mnemonics and directive names are read
/// in any case. A word that has a shape but no value under it is an invalid
/// token; a word of no shape stands for nothing.
pub open spec fn token_for(word: Seq<char>, shape: WordShape) -> Option<TokenKind> {
    if shape.instruction_name {
        Some(TokenKind::Instruction(instruction_named(upper_text(word))))
    } else if shape.directive_name {
        match directive_named(upper_text(word)) {
            Some(directive) => Some(TokenKind::Directive(directive)),
            None => Some(TokenKind::Invalid(word)),
        }
    } else if shape.register {
        match register_number(word) {
            Some(index) => Some(TokenKind::Register(index)),
            None => Some(TokenKind::Invalid(word)),
        }
    } else if shape.immediate {
        match immediate_value(word) {
            Some(value) => Some(TokenKind::Number(value)),
            None => Some(TokenKind::Invalid(word)),
        }
    } else if shape.label {
        Some(TokenKind::Label(word))
    } else if shape.string {
        if word.len() >= 2 {
            Some(TokenKind::Text(word.subrange(1, word.len() - 1)))
        } else {
            Some(TokenKind::Invalid(word))
        }
    } else {
        None
    }
}

/// What the word `word` stands for, if anything.
pub open spec fn word_token(word: Seq<char>) -> Option<TokenKind> {
    token_for(word, shape_of(word))
}

/// What the lexer does with a line.
#[derive(Clone, Copy, Debug, PartialEq, Eq, Structural)]
pub enum LineAction {
    /// The line is blank or a comment: nothing is done.
    Skip,
    /// The line is an instruction or a directive: it is cut into tokens.
    Lex,
    /// The line is malformed: it is reported.
    Report,
}

/// What the lexer does with a line, given which shapes the line has. A
/// line that can be skipped is skipped, whatever else it looks like.
pub open spec fn line_action_for(ignorable: bool, instruction: bool, directive: bool)
    -> LineAction {
    if ignorable {
        LineAction::Skip
    } else if instruction || directive {
        LineAction::Lex
    } else {
        LineAction::Report
    }
}

/// What the lexer does with a line, given which shapes the line has.
pub fn line_action(ignorable: bool, instruction: bool, directive: bool) -> (action: LineAction)
    ensures
        action == line_action_for(ignorable, instruction, directive),
{
    if ignorable {
        LineAction::Skip
    } else if instruction || directive {
        LineAction::Lex
    } else {
        LineAction::Report
    }
}

/// What the lexer does with `line`.
pub open spec fn action_on(line: Seq<char>) -> LineAction {
    line_action_for(is_ignorable(line), is_instruction_line(line), is_directive_line(line))
}

/// The tokens of the words `spans[k..]` of `line`. The first word that is a
/// comment ends the line.
pub open spec fn tokens_of_words(
    line: Seq<char>,
    line_num: usize,
    spans: Seq<(int, int)>,
    k: int,
) -> Seq<TokenView>
    decreases spans.len() - k,
{
    if k < 0 || k >= spans.len() {
        Seq::empty()
    } else {
        let word = line.subrange(spans[k].0, spans[k].1);
        if is_ignorable(word) {
            Seq::empty()
        } else {
            let rest = tokens_of_words(line, line_num, spans, k + 1);
            match word_token(word) {
                Some(kind) => seq![
                    TokenView {
                        kind,
                        from: byte_offset(line, spans[k].0) as usize,
                        to: byte_offset(line, spans[k].1) as usize,
                        line_num,
                        text: word,
                    },
                ] + rest,
                None => rest,
            }
        }
    }
}

/// The tokens of `line`, which is line number `line_num`.
pub open spec fn line_tokens(line: Seq<char>, line_num: usize) -> Seq<TokenView> {
    tokens_of_words(line, line_num, words(line), 0)
}

/// Whether `line` is reported: it is nothing to skip, and neither an
/// instruction nor a directive.
pub open spec fn is_malformed(line: Seq<char>) -> bool {
    action_on(line) == LineAction::Report
}

/// Whether `line` is cut into tokens.
pub open spec fn is_statement(line: Seq<char>) -> bool {
    action_on(line) == LineAction::Lex
}

/// The tokens of the source `lines`, in order. Lines are counted from one.
pub open spec fn lex_tokens(lines: Seq<Seq<char>>) -> Seq<TokenView>
    decreases lines.len(),
{
    if lines.len() == 0 {
        Seq::empty()
    } else if is_statement(lines.last()) {
        lex_tokens(lines.drop_last()) + line_tokens(lines.last(), lines.len() as usize)
    } else {
        lex_tokens(lines.drop_last())
    }
}

/// The diagnostic for the malformed line `line`, number `line_num`.
pub open spec fn syntax_error(line: Seq<char>, line_num: usize) -> AsmErrorView {
    AsmErrorView {
        line,
        line_num,
        error_type: ErrorType::SyntaxError,
        message: SYNTAX_MESSAGE@,
    }
}

/// The diagnostics of the source `lines`: one for each malformed line, in
/// order.
pub open spec fn lex_errors(lines: Seq<Seq<char>>) -> Seq<AsmErrorView>
    decreases lines.len(),
{
    if lines.len() == 0 {
        Seq::empty()
    } else if is_malformed(lines.last()) {
        lex_errors(lines.drop_last()).push(syntax_error(lines.last(), lines.len() as usize))
    } else {
        lex_errors(lines.drop_last())
    }
}

/// How many of `lines` are malformed.
pub open spec fn malformed_count(lines: Seq<Seq<char>>) -> nat
    decreases lines.len(),
{
    if lines.len() == 0 {
        0
    } else if is_malformed(lines.last()) {
        malformed_count(lines.drop_last()) + 1
    } else {
        malformed_count(lines.drop_last())
    }
}

/// The lexer reports each malformed line once and nothing else: a source
/// with two malformed lines gives two diagnostics.
pub proof fn lemma_one_error_per_malformed_line(lines: Seq<Seq<char>>)
    ensures
        lex_errors(lines).len() == malformed_count(lines),
        forall|i: int|
            0 <= i < lex_errors(lines).len() ==> (#[trigger] lex_errors(lines)[i]).error_type
                == ErrorType::SyntaxError,
    decreases lines.len(),
{
    if lines.len() > 0 {
        lemma_one_error_per_malformed_line(lines.drop_last());
    }
}

/// The texts of `lines`.
pub open spec fn line_texts(lines: Seq<&str>) -> Seq<Seq<char>> {
    Seq::new(lines.len(), |i: int| lines[i]@)
}

/// The lexer, with the tokens and the diagnostics of its last run.
pub struct Lexer {
    pub token_stream: Vec<Token>,
    pub errors: Vec<AsmError>,
    pub syntax_checker: SyntaxChecker,
    /// Number of the line that is being read, counted from one.
    pub curr_line_num: usize,
}

impl Lexer {
    /// A lexer that has read nothing. It cannot be had if a pattern of the
    /// syntax does not compile.
    pub fn new() -> (lexer: Result<Lexer, PatternError>)
        ensures
            lexer.is_ok() == patterns_compile(),
            lexer matches Err(e) ==> !regex_compiles(e.pattern@),
            lexer matches Ok(l) ==> l.token_stream@.len() == 0 && l.errors@.len() == 0
                && l.curr_line_num == 0,
    {
        match SyntaxChecker::new() {
            Ok(syntax_checker) => Ok(
                Lexer {
                    token_stream: Vec::new(),
                    errors: Vec::new(),
                    syntax_checker,
                    curr_line_num: 0,
                },
            ),
            Err(e) => Err(e),
        }
    }

    /// Reads the source `input_file`, one line per element. The tokens are
    /// returned and also kept in `token_stream`; `errors` holds one
    /// diagnostic for each malformed line. What an earlier run left behind is
    /// dropped.
    pub fn run(&mut self, input_file: Vec<&str>) -> (tokens: Vec<Token>)
        ensures
            tokens.deep_view() == lex_tokens(line_texts(input_file@)),
            final(self).token_stream.deep_view() == lex_tokens(line_texts(input_file@)),
            final(self).errors.deep_view() == lex_errors(line_texts(input_file@)),
            final(self).curr_line_num == input_file@.len(),
    {
        self.token_stream = Vec::new();
        self.errors = Vec::new();
        self.curr_line_num = 0;
        let ghost lines = line_texts(input_file@);
        let mut index: usize = 0;
        while index < input_file.len()
            invariant
                index <= input_file@.len(),
                lines == line_texts(input_file@),
                self.curr_line_num == index,
                self.token_stream.deep_view() == lex_tokens(lines.take(index as int)),
                self.errors.deep_view() == lex_errors(lines.take(index as int)),
            decreases input_file@.len() - index,
        {
            let line = input_file[index];
            proof {
                let longer = lines.take(index + 1);
                assert(longer.drop_last() =~= lines.take(index as int));
            }
            self.curr_line_num = index + 1;
            let action = line_action(
                self.syntax_checker.is_ignore(line),
                self.syntax_checker.is_ins(line),
                self.syntax_checker.is_dir(line),
            );
            match action {
                LineAction::Skip => {},
                LineAction::Lex => {
                    self.parse_line(line);
                },
                LineAction::Report => {
                    self.errors.push(
                        AsmError::new(
                            line,
                            self.curr_line_num,
                            ErrorType::SyntaxError,
                            SYNTAX_MESSAGE,
                        ),
                    );
                },
            }
            index += 1;
        }
        assert(lines.take(lines.len() as int) =~= lines);
        duplicate_tokens(&self.token_stream)
    }

    /// Reads the source `file`, which is cut into lines at its line feeds,
    /// as [`Lexer::run`] does.
    pub fn run_file(&mut self, file: &str) -> (tokens: Vec<Token>)
        ensures
            tokens.deep_view() == lex_tokens(lines_of(file@)),
            final(self).token_stream.deep_view() == lex_tokens(lines_of(file@)),
            final(self).errors.deep_view() == lex_errors(lines_of(file@)),
            final(self).curr_line_num == lines_of(file@).len(),
    {
        let lines = split_lines(file);
        let mut sources: Vec<&str> = Vec::new();
        let mut index: usize = 0;
        while index < lines.len()
            invariant
                index <= lines@.len(),
                sources@.len() == index,
                forall|i: int| 0 <= i < index ==> sources@[i]@ == lines@[i]@,
            decreases lines@.len() - index,
        {
            sources.push(lines[index].as_str());
            index += 1;
        }
        assert(line_texts(sources@) =~= lines.deep_view());
        self.run(sources)
    }

    /// Cuts `line` into words and appends the token of each word that stands
    /// for something. A word that is a comment ends the line. The tokens get
    /// the number of the line that is being read.
    pub fn parse_line(&mut self, line: &str)
        ensures
            final(self).token_stream.deep_view() == old(self).token_stream.deep_view()
                + line_tokens(line@, old(self).curr_line_num),
            final(self).errors == old(self).errors,
            final(self).curr_line_num == old(self).curr_line_num,
    {
        let chars = to_chars(line);
        let spans = split_words(&chars);
        let offsets = byte_offsets(line, &chars);
        let ghost all = words(line@);
        let ghost line_num = self.curr_line_num;
        let mut k: usize = 0;
        while k < spans.len()
            invariant
                k <= spans@.len(),
                chars@ == line@,
                all == words(line@),
                line_num == self.curr_line_num,
                line_num == old(self).curr_line_num,
                spans@.len() == all.len(),
                forall|j: int|
                    0 <= j < spans@.len() ==> {
                        &&& (#[trigger] spans@[j]).0 == all[j].0
                        &&& spans@[j].1 == all[j].1
                        &&& spans@[j].0 < spans@[j].1 <= line@.len()
                    },
                offsets@.len() == line@.len() + 1,
                forall|i: int|
                    0 <= i <= line@.len() ==> #[trigger] offsets@[i] == byte_offset(line@, i),
                self.token_stream.deep_view() + tokens_of_words(line@, line_num, all, k as int)
                    == old(self).token_stream.deep_view() + line_tokens(line@, line_num),
                self.errors == old(self).errors,
            decreases spans@.len() - k,
        {
            let (start, end) = spans[k];
            let word = line.substring_char(start, end);
            if self.syntax_checker.is_ignore(word) {
                return ;
            }
            match self.classify(word) {
                Some(inner_token) => {
                    let token = Token {
                        inner_token,
                        to: offsets[end],
                        from: offsets[start],
                        line_num: self.curr_line_num,
                        original_match: word.to_owned(),
                    };
                    self.token_stream.push(token);
                },
                None => {},
            }
            k += 1;
        }
    }

    /// The shapes of `word`.
    pub fn shape(&self, word: &str) -> (shape: WordShape)
        ensures
            shape == shape_of(word@),
    {
        let shouted = Lexer::shout(word);
        WordShape {
            instruction_name: self.syntax_checker.is_instruction_name(shouted.as_str()),
            directive_name: self.syntax_checker.is_directive_name(shouted.as_str()),
            register: self.syntax_checker.is_valid_register(word),
            immediate: self.syntax_checker.is_valid_immediate_value(word),
            label: self.syntax_checker.is_valid_label(word),
            string: self.syntax_checker.is_valid_string_whole(word),
        }
    }

    /// What the word `word` stands for, if anything.
    fn classify(&self, word: &str) -> (token: Option<TokenType>)
        ensures
            match token {
                Some(t) => word_token(word@) == Some(t@),
                None => word_token(word@).is_none(),
            },
    {
        read_word(word, self.shape(word))
    }

    /// `word` with its ASCII letters in upper case.
    fn shout(word: &str) -> (shouted: String)
        ensures
            shouted@ == upper_text(word@),
    {
        let mut shouted = String::new();
        let iter = word.chars();
        for c in it: iter
            invariant
                it.seq() == word@,
                shouted@ == upper_text(word@.take(it.index())),
        {
            push_char(&mut shouted, super::text::to_upper(c));
        }
        shouted
    }

    /// The register that `word` names, if its second character is a digit.
    fn read_register(word: &str) -> (index: Option<u16>)
        ensures
            index == register_number(word@),
    {
        let chars = to_chars(word);
        if chars.len() >= 2 && '0' <= chars[1] && chars[1] <= '9' {
            Some((chars[1] as u32 - '0' as u32) as u16)
        } else {
            None
        }
    }

    /// The value of the immediate `word`, if it has one.
    fn read_immediate(word: &str) -> (value: Option<i16>)
        ensures
            value == immediate_value(word@),
    {
        let chars = to_chars(word);
        if chars.len() < 2 {
            return None;
        }
        if chars[0] == '#' {
            if chars[1] == '-' {
                match read_number(&chars, 2, 10, 0x8000) {
                    Some(magnitude) => Some((-(magnitude as i32)) as i16),
                    None => None,
                }
            } else {
                match read_number(&chars, 1, 10, 0x7FFF) {
                    Some(magnitude) => Some(magnitude as i16),
                    None => None,
                }
            }
        } else if chars[0] == 'x' || chars[0] == 'X' {
            match read_number(&chars, 1, 16, 0xFFFF) {
                Some(pattern) => {
                    if pattern >= 0x8000 {
                        Some((pattern as i32 - 0x1_0000) as i16)
                    } else {
                        Some(pattern as i16)
                    }
                },
                None => None,
            }
        } else {
            None
        }
    }

    /// The number of the register `word`: the digit behind the `R`.
    pub fn parse_register(&self, word: &str) -> (index: u16)
        requires
            register_number(word@).is_some(),
        ensures
            Some(index) == register_number(word@),
    {
        match Lexer::read_register(word) {
            Some(index) => index,
            None => unreached(),
        }
    }

    /// The value of the immediate `word`, as a pattern of sixteen bits.
    pub fn parse_immediate_value(&self, word: &str) -> (value: i16)
        requires
            immediate_value(word@).is_some(),
        ensures
            Some(value) == immediate_value(word@),
    {
        match Lexer::read_immediate(word) {
            Some(value) => value,
            None => unreached(),
        }
    }
}

/// What a word of the shapes `shape` stands for, if anything.
pub fn read_word(word: &str, shape: WordShape) -> (token: Option<TokenType>)
    ensures
        match token {
            Some(t) => token_for(word@, shape) == Some(t@),
            None => token_for(word@, shape).is_none(),
        },
{
    if shape.instruction_name {
        Some(TokenType::Instruction(OpcodeIns::from(word)))
    } else if shape.directive_name {
        match Directive::parse(Lexer::shout(word).as_str()) {
            Some(directive) => Some(TokenType::Directive(directive)),
            None => Some(TokenType::INVALID(word.to_owned())),
        }
    } else if shape.register {
        match Lexer::read_register(word) {
            Some(index) => Some(TokenType::Register(index)),
            None => Some(TokenType::INVALID(word.to_owned())),
        }
    } else if shape.immediate {
        match Lexer::read_immediate(word) {
            Some(value) => Some(TokenType::Number(value)),
            None => Some(TokenType::INVALID(word.to_owned())),
        }
    } else if shape.label {
        Some(TokenType::Label(word.to_owned()))
    } else if shape.string {
        let length = word.unicode_len();
        if length >= 2 {
            Some(TokenType::String(word.substring_char(1, length - 1).to_owned()))
        } else {
            Some(TokenType::INVALID(word.to_owned()))
        }
    } else {
        None
    }
}

} // verus!
