//! The shapes of source lines and words, each given by a regular expression.
use regex::Regex;
use vstd::prelude::*;

verus! {

/// An instruction: an optional label, a mnemonic and up to three operands,
/// with an optional comment behind them. The pattern is looked for anywhere
/// in a line, and everything but the mnemonic may be missing, so a line has
/// this shape as soon as it holds a run of letters.
pub const INSTRUCTION_LINE: &'static str =
    r#"([A-Za-z_][A-Za-z0-9_]*\s)?(\s)*[A-Za-z]+(\s)*(\s([A-Za-z_][A-Za-z0-9_]*|#[0-9]+|R[0-7]|PC)(,(\s)+([A-Za-z_][A-Za-z0-9_]*|#[0-9]+|R[0-7]|PC)(,(\s)+([A-Za-z_][A-Za-z0-9_]*|#[0-9]+|R[0-7]|PC))?)?)?(\s)*(;.*)?"#;

/// A directive: an optional label, a dot and a name, an optional operand
/// and comment, and the line break that ends the line. The pattern is looked
/// for anywhere in a line.
pub const DIRECTIVE_LINE: &'static str =
    r#"([A-Za-z][A-Za-z0-9]*\s)?(\s)*[.][A-Za-z0-9]*(\s)+(x[0-9]+|["].+["]|)?(\s)?(;.*)?[\n|\r|\n\r]"#;

/// A line or a word that is skipped: blank, or a comment.
pub const IGNORE_LINE: &'static str = r#"^(\s)*(;.*)?$"#;

/// The mnemonic of an instruction, in upper case.
pub const INSTRUCTION_NAME: &'static str =
    "^((BR[N]?[Z]?[P]?)|ADD|AND|JMP|JSR|JSRR|LD|LDI|LDR|LEA|NOT|RET|RTI|ST|STI|STR|GETC|OUT|PUTS|IN|HALT)$";

/// The name of a directive, in upper case.
pub const DIRECTIVE_NAME: &'static str = "^[.](ORIG|FILL|BLKW|STRINGZ|END)$";

/// A register, `R0` to `R7`.
pub const REGISTER: &'static str = r#"^(R|r)[0-7]$"#;

/// A label: a letter or an underscore, then letters, digits and underscores.
pub const LABEL: &'static str = r#"^[A-Za-z_][A-Za-z0-9_]*$"#;

/// An immediate value: `#` and a decimal number, or `x` and a hexadecimal one.
pub const IMMEDIATE: &'static str = r##"^(([#][-]?[0-9]+)|([xX][0-9A-F]+))$"##;

/// A string literal from its opening to its closing quote.
pub const STRING_WHOLE: &'static str = r#"^["].*["]$"#;

/// A word that opens a string literal.
pub const STRING_START: &'static str = r#"^["].*"#;

/// A word that closes a string literal.
pub const STRING_END: &'static str = r#".*["]$"#;

/// `regex::Regex`, a compiled regular expression. The proofs see nothing
/// of what is inside.
#[verifier::external_type_specification]
#[verifier::external_body]
pub struct ExRegex(regex::Regex);

/// `regex::Error`, the reason why a pattern was refused. The proofs see
/// nothing of what is inside.
#[verifier::external_type_specification]
#[verifier::external_body]
pub struct ExRegexError(regex::Error);

/// Whether `regex::Regex::new` accepts `pattern`.
pub uninterp spec fn regex_compiles(pattern: Seq<char>) -> bool;

/// The pattern that `re` was compiled from, which is what
/// `regex::Regex::as_str` returns.
pub uninterp spec fn regex_pattern(re: Regex) -> Seq<char>;

/// What `regex::Regex::is_match` answers for a regular expression compiled
/// from `pattern`: whether `pattern` matches anywhere in `haystack`.
pub uninterp spec fn regex_is_match(pattern: Seq<char>, haystack: Seq<char>) -> bool;

/// `regex::Regex::new`: compiles `pattern`. Nothing is claimed about which
/// patterns compile, only that the outcome depends on the pattern alone and
/// that the compiled expression is one for this pattern.
#[verifier::external_body]
fn compile(pattern: &str) -> (compiled: Result<Regex, regex::Error>)
    ensures
        compiled.is_ok() == regex_compiles(pattern@),
        compiled matches Ok(re) ==> regex_pattern(re) == pattern@,
{
    Regex::new(pattern)
}

/// `regex::Regex::is_match`: whether the expression matches anywhere in
/// `haystack`. The answer depends only on the pattern that the expression
/// was compiled from and on the haystack.
#[verifier::external_body]
fn matches(re: &Regex, haystack: &str) -> (found: bool)
    ensures
        found == regex_is_match(regex_pattern(*re), haystack@),
{
    re.is_match(haystack)
}

/// Whether `line` has the shape of an instruction line.
pub open spec fn is_instruction_line(line: Seq<char>) -> bool {
    regex_is_match(INSTRUCTION_LINE@, line)
}

/// Whether `line` has the shape of a directive line.
pub open spec fn is_directive_line(line: Seq<char>) -> bool {
    regex_is_match(DIRECTIVE_LINE@, line)
}

/// Whether `text`, a line or a word, is blank or a comment.
pub open spec fn is_ignorable(text: Seq<char>) -> bool {
    regex_is_match(IGNORE_LINE@, text)
}

/// Whether `word` is the mnemonic of an instruction.
pub open spec fn is_instruction_name(word: Seq<char>) -> bool {
    regex_is_match(INSTRUCTION_NAME@, word)
}

/// Whether `word` is the name of a directive.
pub open spec fn is_directive_name(word: Seq<char>) -> bool {
    regex_is_match(DIRECTIVE_NAME@, word)
}

/// Whether `word` names a register.
pub open spec fn is_register(word: Seq<char>) -> bool {
    regex_is_match(REGISTER@, word)
}

/// Whether `word` can be a label.
pub open spec fn is_label(word: Seq<char>) -> bool {
    regex_is_match(LABEL@, word)
}

/// Whether `word` is an immediate value.
pub open spec fn is_immediate(word: Seq<char>) -> bool {
    regex_is_match(IMMEDIATE@, word)
}

/// Whether `word` is a whole string literal.
pub open spec fn is_string_whole(word: Seq<char>) -> bool {
    regex_is_match(STRING_WHOLE@, word)
}

/// Whether `word` opens a string literal.
pub open spec fn is_string_start(word: Seq<char>) -> bool {
    regex_is_match(STRING_START@, word)
}

/// Whether `word` closes a string literal.
pub open spec fn is_string_end(word: Seq<char>) -> bool {
    regex_is_match(STRING_END@, word)
}

/// Whether every pattern of the syntax compiles.
pub open spec fn patterns_compile() -> bool {
    &&& regex_compiles(INSTRUCTION_LINE@)
    &&& regex_compiles(DIRECTIVE_LINE@)
    &&& regex_compiles(IGNORE_LINE@)
    &&& regex_compiles(INSTRUCTION_NAME@)
    &&& regex_compiles(DIRECTIVE_NAME@)
    &&& regex_compiles(REGISTER@)
    &&& regex_compiles(LABEL@)
    &&& regex_compiles(IMMEDIATE@)
    &&& regex_compiles(STRING_WHOLE@)
    &&& regex_compiles(STRING_START@)
    &&& regex_compiles(STRING_END@)
}

/// A pattern of the syntax that did not compile.
#[derive(Debug, Clone, PartialEq, Eq)]
pub struct PatternError {
    /// The pattern that was refused.
    pub pattern: String,
}

/// The compiled patterns of the syntax.
pub struct SyntaxChecker {
    instruction_line: Regex,
    directive_line: Regex,
    ignore_line: Regex,
    instruction_name: Regex,
    directive_name: Regex,
    register: Regex,
    label: Regex,
    imm: Regex,
    string_whole: Regex,
    string_start: Regex,
    string_end: Regex,
}

/// Compiles `pattern` and names it in the error if it is refused.
fn compile_pattern(pattern: &str) -> (compiled: Result<Regex, PatternError>)
    ensures
        compiled.is_ok() == regex_compiles(pattern@),
        compiled matches Ok(re) ==> regex_pattern(re) == pattern@,
        compiled matches Err(e) ==> e.pattern@ == pattern@,
{
    match compile(pattern) {
        Ok(re) => Ok(re),
        Err(_) => Err(PatternError { pattern: pattern.to_owned() }),
    }
}

impl SyntaxChecker {
    /// Every field holds the expression of its own pattern.
    #[verifier::type_invariant]
    spec fn well_formed(&self) -> bool {
        &&& regex_pattern(self.instruction_line) == INSTRUCTION_LINE@
        &&& regex_pattern(self.directive_line) == DIRECTIVE_LINE@
        &&& regex_pattern(self.ignore_line) == IGNORE_LINE@
        &&& regex_pattern(self.instruction_name) == INSTRUCTION_NAME@
        &&& regex_pattern(self.directive_name) == DIRECTIVE_NAME@
        &&& regex_pattern(self.register) == REGISTER@
        &&& regex_pattern(self.label) == LABEL@
        &&& regex_pattern(self.imm) == IMMEDIATE@
        &&& regex_pattern(self.string_whole) == STRING_WHOLE@
        &&& regex_pattern(self.string_start) == STRING_START@
        &&& regex_pattern(self.string_end) == STRING_END@
    }

    /// Compiles the patterns. The error names the first pattern that was
    /// refused.
    pub fn new() -> (made: Result<SyntaxChecker, PatternError>)
        ensures
            made.is_ok() == patterns_compile(),
            made matches Err(e) ==> !regex_compiles(e.pattern@),
    {
        let instruction_line = compile_pattern(INSTRUCTION_LINE)?;
        let directive_line = compile_pattern(DIRECTIVE_LINE)?;
        let ignore_line = compile_pattern(IGNORE_LINE)?;
        let instruction_name = compile_pattern(INSTRUCTION_NAME)?;
        let directive_name = compile_pattern(DIRECTIVE_NAME)?;
        let register = compile_pattern(REGISTER)?;
        let label = compile_pattern(LABEL)?;
        let imm = compile_pattern(IMMEDIATE)?;
        let string_whole = compile_pattern(STRING_WHOLE)?;
        let string_start = compile_pattern(STRING_START)?;
        let string_end = compile_pattern(STRING_END)?;
        Ok(
            SyntaxChecker {
                instruction_line,
                directive_line,
                ignore_line,
                instruction_name,
                directive_name,
                register,
                label,
                imm,
                string_whole,
                string_start,
                string_end,
            },
        )
    }

    /// Whether `line` has the shape of an instruction line.
    pub fn is_ins(&self, line: &str) -> (found: bool)
        ensures
            found == is_instruction_line(line@),
    {
        proof {
            use_type_invariant(self);
        }
        matches(&self.instruction_line, line)
    }

    /// Whether `line` has the shape of a directive line.
    pub fn is_dir(&self, line: &str) -> (found: bool)
        ensures
            found == is_directive_line(line@),
    {
        proof {
            use_type_invariant(self);
        }
        matches(&self.directive_line, line)
    }

    /// Whether `line`, a line or a word, is blank or a comment.
    pub fn is_ignore(&self, line: &str) -> (found: bool)
        ensures
            found == is_ignorable(line@),
    {
        proof {
            use_type_invariant(self);
        }
        matches(&self.ignore_line, line)
    }

    /// Whether `word` is the mnemonic of an instruction, in upper case.
    pub fn is_instruction_name(&self, word: &str) -> (found: bool)
        ensures
            found == is_instruction_name(word@),
    {
        proof {
            use_type_invariant(self);
        }
        matches(&self.instruction_name, word)
    }

    /// Whether `word` is the name of a directive, in upper case.
    pub fn is_directive_name(&self, word: &str) -> (found: bool)
        ensures
            found == is_directive_name(word@),
    {
        proof {
            use_type_invariant(self);
        }
        matches(&self.directive_name, word)
    }

    /// Whether `word` names a register.
    pub fn is_valid_register(&self, word: &str) -> (found: bool)
        ensures
            found == is_register(word@),
    {
        proof {
            use_type_invariant(self);
        }
        matches(&self.register, word)
    }

    /// Whether `word` can be a label.
    pub fn is_valid_label(&self, word: &str) -> (found: bool)
        ensures
            found == is_label(word@),
    {
        proof {
            use_type_invariant(self);
        }
        matches(&self.label, word)
    }

    /// Whether `word` is an immediate value.
    pub fn is_valid_immediate_value(&self, word: &str) -> (found: bool)
        ensures
            found == is_immediate(word@),
    {
        proof {
            use_type_invariant(self);
        }
        matches(&self.imm, word)
    }

    /// Whether `word` is a whole string literal.
    pub fn is_valid_string_whole(&self, word: &str) -> (found: bool)
        ensures
            found == is_string_whole(word@),
    {
        proof {
            use_type_invariant(self);
        }
        matches(&self.string_whole, word)
    }

    /// Whether `word` opens a string literal.
    pub fn is_string_start(&self, word: &str) -> (found: bool)
        ensures
            found == is_string_start(word@),
    {
        proof {
            use_type_invariant(self);
        }
        matches(&self.string_start, word)
    }

    /// Whether `word` closes a string literal.
    pub fn is_string_end(&self, word: &str) -> (found: bool)
        ensures
            found == is_string_end(word@),
    {
        proof {
            use_type_invariant(self);
        }
        matches(&self.string_end, word)
    }
}

} // verus!
