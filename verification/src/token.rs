//! Token records, their mathematical views, and the reserved-word table.

use vstd::prelude::*;
use vstd::string::StringExecFns;

verus! {

/// The closed set of token kinds: single-character punctuation,
/// one- or two-character operators, the literal kinds, the reserved
/// words of the language, and an end-of-input marker.
#[derive(Clone, Copy, Debug, PartialEq, Eq)]
pub enum TokenType {
    LeftParen,
    RightParen,
    LeftBrace,
    RightBrace,
    Comma,
    Dot,
    Minus,
    Plus,
    Semicolon,
    Slash,
    Star,
    Bang,
    BangEqual,
    Equal,
    EqualEqual,
    Greater,
    GreaterEqual,
    Less,
    LessEqual,
    Identifier,
    String,
    Number,
    And,
    Class,
    Else,
    False,
    For,
    Fun,
    If,
    Nil,
    Or,
    Print,
    Return,
    Super,
    This,
    True,
    Var,
    While,
    Eof,
}

/// The value a token carries: nothing, the text of a string or
/// identifier literal, or the decimal numeral of a number literal.
/// The numeral is kept exactly as matched; turning it into a machine
/// float is left to the unverified embedder.
#[derive(Debug, PartialEq)]
pub enum Literal {
    Nothing,
    String(String),
    Number(String),
}

/// A literal viewed mathematically: texts as character sequences.
#[verifier::ext_equal]
pub enum SpecLiteral {
    Nothing,
    String(Seq<char>),
    Number(Seq<char>),
}

impl View for Literal {
    type V = SpecLiteral;

    open spec fn view(&self) -> SpecLiteral {
        match self {
            Literal::Nothing => SpecLiteral::Nothing,
            Literal::String(s) => SpecLiteral::String(s@),
            Literal::Number(s) => SpecLiteral::Number(s@),
        }
    }
}

impl DeepView for Literal {
    type V = SpecLiteral;

    open spec fn deep_view(&self) -> SpecLiteral {
        self.view()
    }
}

/// One classified unit of source text.  `lexeme` is the exact source
/// substring consumed for this token and `line` is the 1-based source
/// line on which its first character appears.
#[derive(Debug, PartialEq)]
pub struct Token {
    pub token_type: TokenType,
    pub literal: Literal,
    pub lexeme: String,
    pub line: usize,
}

/// A token viewed mathematically.
#[verifier::ext_equal]
pub struct SpecToken {
    pub token_type: TokenType,
    pub literal: SpecLiteral,
    pub lexeme: Seq<char>,
    pub line: nat,
}

impl View for Token {
    type V = SpecToken;

    open spec fn view(&self) -> SpecToken {
        SpecToken {
            token_type: self.token_type,
            literal: self.literal@,
            lexeme: self.lexeme@,
            line: self.line as nat,
        }
    }
}

impl DeepView for Token {
    type V = SpecToken;

    open spec fn deep_view(&self) -> SpecToken {
        self.view()
    }
}

/// The kinds of lexical error the scanner can record.
#[derive(Clone, Copy, Debug, PartialEq, Eq)]
pub enum ErrorKind {
    /// A string literal's opening quote has no matching closing quote
    /// before the end of the input.
    UnterminatedString,
    /// A numeric run holds more than one decimal point.
    InvalidNumberFormat,
    /// A character that no dispatch rule resolves.
    UnexpectedCharacter,
}

/// One recorded lexical error: its kind, the 1-based source line, and
/// the offending text.
#[derive(Debug, PartialEq)]
pub struct ScanError {
    pub kind: ErrorKind,
    pub line: usize,
    pub lexeme: String,
}

/// An error record viewed mathematically.
#[verifier::ext_equal]
pub struct SpecScanError {
    pub kind: ErrorKind,
    pub line: nat,
    pub lexeme: Seq<char>,
}

impl View for ScanError {
    type V = SpecScanError;

    open spec fn view(&self) -> SpecScanError {
        SpecScanError { kind: self.kind, line: self.line as nat, lexeme: self.lexeme@ }
    }
}

impl DeepView for ScanError {
    type V = SpecScanError;

    open spec fn deep_view(&self) -> SpecScanError {
        self.view()
    }
}

/// The reserved-word table: the exact text of each keyword mapped to
/// its token kind.  It is a pure function, fixed before any scanning
/// begins and shared read-only by every scanner.
pub open spec fn spec_keyword_kind(s: Seq<char>) -> Option<TokenType> {
    if s == "and"@ {
        Some(TokenType::And)
    } else if s == "class"@ {
        Some(TokenType::Class)
    } else if s == "else"@ {
        Some(TokenType::Else)
    } else if s == "false"@ {
        Some(TokenType::False)
    } else if s == "for"@ {
        Some(TokenType::For)
    } else if s == "fun"@ {
        Some(TokenType::Fun)
    } else if s == "if"@ {
        Some(TokenType::If)
    } else if s == "nil"@ {
        Some(TokenType::Nil)
    } else if s == "or"@ {
        Some(TokenType::Or)
    } else if s == "print"@ {
        Some(TokenType::Print)
    } else if s == "return"@ {
        Some(TokenType::Return)
    } else if s == "super"@ {
        Some(TokenType::Super)
    } else if s == "this"@ {
        Some(TokenType::This)
    } else if s == "true"@ {
        Some(TokenType::True)
    } else if s == "var"@ {
        Some(TokenType::Var)
    } else if s == "while"@ {
        Some(TokenType::While)
    } else {
        None
    }
}

/// Look `text` up in the reserved-word table.
pub fn keyword_kind(text: &String) -> (r: Option<TokenType>)
    ensures
        r == spec_keyword_kind(text@),
{
    if *text == String::from_str("and") {
        Some(TokenType::And)
    } else if *text == String::from_str("class") {
        Some(TokenType::Class)
    } else if *text == String::from_str("else") {
        Some(TokenType::Else)
    } else if *text == String::from_str("false") {
        Some(TokenType::False)
    } else if *text == String::from_str("for") {
        Some(TokenType::For)
    } else if *text == String::from_str("fun") {
        Some(TokenType::Fun)
    } else if *text == String::from_str("if") {
        Some(TokenType::If)
    } else if *text == String::from_str("nil") {
        Some(TokenType::Nil)
    } else if *text == String::from_str("or") {
        Some(TokenType::Or)
    } else if *text == String::from_str("print") {
        Some(TokenType::Print)
    } else if *text == String::from_str("return") {
        Some(TokenType::Return)
    } else if *text == String::from_str("super") {
        Some(TokenType::Super)
    } else if *text == String::from_str("this") {
        Some(TokenType::This)
    } else if *text == String::from_str("true") {
        Some(TokenType::True)
    } else if *text == String::from_str("var") {
        Some(TokenType::Var)
    } else if *text == String::from_str("while") {
        Some(TokenType::While)
    } else {
        None
    }
}

} // verus!
