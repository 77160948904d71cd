//! The mathematical model of scanning.
//!
//! [`scan_step`] says what one invocation of "scan next token" does at
//! a given cursor position and line counter; [`scan_from`] folds the
//! steps over the rest of the source and collects every token and every
//! error, in order.  The contracts of the executable scanner are stated
//! against these functions.

use vstd::prelude::*;

use crate::token::{ErrorKind, SpecLiteral, SpecScanError, SpecToken, TokenType, spec_keyword_kind};

verus! {

/// An ASCII decimal digit.
pub open spec fn is_digit_char(c: char) -> bool {
    ('0' as u32) <= (c as u32) && (c as u32) <= ('9' as u32)
}

/// An ASCII letter or the underscore: the characters that may begin an
/// identifier.
pub open spec fn is_ident_start_char(c: char) -> bool {
    (('a' as u32) <= (c as u32) && (c as u32) <= ('z' as u32))
    || (('A' as u32) <= (c as u32) && (c as u32) <= ('Z' as u32))
    || c == '_'
}

/// A character that may continue an identifier.
pub open spec fn is_ident_continue_char(c: char) -> bool {
    is_ident_start_char(c) || is_digit_char(c)
}

/// Executable digit test.
pub fn is_digit(c: char) -> (r: bool)
    ensures
        r == is_digit_char(c),
{
    ('0' as u32) <= (c as u32) && (c as u32) <= ('9' as u32)
}

/// Executable identifier-start test.
pub fn is_ident_start(c: char) -> (r: bool)
    ensures
        r == is_ident_start_char(c),
{
    (('a' as u32) <= (c as u32) && (c as u32) <= ('z' as u32))
    || (('A' as u32) <= (c as u32) && (c as u32) <= ('Z' as u32))
    || c == '_'
}

/// Executable identifier-continue test.
pub fn is_ident_continue(c: char) -> (r: bool)
    ensures
        r == is_ident_continue_char(c),
{
    is_ident_start(c) || is_digit(c)
}

/// The token kind of a single-character punctuation symbol.
pub open spec fn punct_kind(c: char) -> Option<TokenType> {
    if c == '(' {
        Some(TokenType::LeftParen)
    } else if c == ')' {
        Some(TokenType::RightParen)
    } else if c == '{' {
        Some(TokenType::LeftBrace)
    } else if c == '}' {
        Some(TokenType::RightBrace)
    } else if c == ',' {
        Some(TokenType::Comma)
    } else if c == '.' {
        Some(TokenType::Dot)
    } else if c == '-' {
        Some(TokenType::Minus)
    } else if c == '+' {
        Some(TokenType::Plus)
    } else if c == ';' {
        Some(TokenType::Semicolon)
    } else if c == '/' {
        Some(TokenType::Slash)
    } else if c == '*' {
        Some(TokenType::Star)
    } else {
        None
    }
}

/// For the ambiguous operators `! = < >`: the one-character kind and
/// the two-character kind taken greedily when `=` follows.
pub open spec fn operator_kinds(c: char) -> Option<(TokenType, TokenType)> {
    if c == '!' {
        Some((TokenType::Bang, TokenType::BangEqual))
    } else if c == '=' {
        Some((TokenType::Equal, TokenType::EqualEqual))
    } else if c == '<' {
        Some((TokenType::Less, TokenType::LessEqual))
    } else if c == '>' {
        Some((TokenType::Greater, TokenType::GreaterEqual))
    } else {
        None
    }
}

/// A character that no dispatch rule resolves: scanning it yields an
/// `UnexpectedCharacter` error.
pub open spec fn is_unexpected_char(c: char) -> bool {
    &&& punct_kind(c) is None
    &&& operator_kinds(c) is None
    &&& c != ' '
    &&& c != '\t'
    &&& c != '\n'
    &&& c != '"'
    &&& !is_digit_char(c)
    &&& !is_ident_start_char(c)
}

/// First position at or after `i` that does not continue an identifier.
pub open spec fn ident_end(src: Seq<char>, i: int) -> int
    decreases src.len() - i,
{
    if 0 <= i < src.len() && is_ident_continue_char(src[i]) {
        ident_end(src, i + 1)
    } else {
        i
    }
}

/// End of the numeric run that begins at `i`: the maximal run of
/// digits in which a decimal point is consumed only when a digit
/// follows it immediately.
pub open spec fn number_end(src: Seq<char>, i: int) -> int
    decreases src.len() - i,
{
    if 0 <= i < src.len() && is_digit_char(src[i]) {
        number_end(src, i + 1)
    } else if 0 <= i && i + 1 < src.len() && src[i] == '.' && is_digit_char(src[i + 1]) {
        number_end(src, i + 1)
    } else {
        i
    }
}

/// How many decimal points the numeric run that begins at `i` consumes.
pub open spec fn number_dots(src: Seq<char>, i: int) -> nat
    decreases src.len() - i,
{
    if 0 <= i < src.len() && is_digit_char(src[i]) {
        number_dots(src, i + 1)
    } else if 0 <= i && i + 1 < src.len() && src[i] == '.' && is_digit_char(src[i + 1]) {
        1 + number_dots(src, i + 1)
    } else {
        0
    }
}

/// Position of the first `"` at or after `i`, or the length of the
/// source when none remains.
pub open spec fn string_close(src: Seq<char>, i: int) -> int
    recommends
        0 <= i,
    decreases src.len() - i,
{
    if 0 <= i < src.len() {
        if src[i] == '"' {
            i
        } else {
            string_close(src, i + 1)
        }
    } else {
        src.len() as int
    }
}

/// Newlines among `src[i..j]`.
pub open spec fn newline_count(src: Seq<char>, i: int, j: int) -> nat
    decreases j - i,
{
    if i < j {
        newline_count(src, i, j - 1) + (if 0 <= j - 1 < src.len() && src[j - 1] == '\n' {
            1nat
        } else {
            0nat
        })
    } else {
        0
    }
}

pub proof fn lemma_ident_end_bounds(src: Seq<char>, i: int)
    requires
        0 <= i <= src.len(),
    ensures
        i <= ident_end(src, i) <= src.len(),
    decreases src.len() - i,
{
    if i < src.len() && is_ident_continue_char(src[i]) {
        lemma_ident_end_bounds(src, i + 1);
    }
}

pub proof fn lemma_number_end_bounds(src: Seq<char>, i: int)
    requires
        0 <= i <= src.len(),
    ensures
        i <= number_end(src, i) <= src.len(),
    decreases src.len() - i,
{
    if i < src.len() && is_digit_char(src[i]) {
        lemma_number_end_bounds(src, i + 1);
    } else if i + 1 < src.len() && src[i] == '.' && is_digit_char(src[i + 1]) {
        lemma_number_end_bounds(src, i + 1);
    }
}

pub proof fn lemma_string_close_bounds(src: Seq<char>, i: int)
    requires
        0 <= i <= src.len(),
    ensures
        i <= string_close(src, i) <= src.len(),
    decreases src.len() - i,
{
    if i < src.len() && src[i] != '"' {
        lemma_string_close_bounds(src, i + 1);
    }
}

/// What one scan step leaves behind: the new cursor position, the new
/// line counter, and at most one token or one error.
#[verifier::ext_equal]
pub struct SpecStep {
    pub next_pos: int,
    pub next_line: int,
    pub token: Option<SpecToken>,
    pub error: Option<SpecScanError>,
}

/// The tokens and errors of a scan, in order of emission.
#[verifier::ext_equal]
pub struct SpecScanResult {
    pub tokens: Seq<SpecToken>,
    pub errors: Seq<SpecScanError>,
}

pub open spec fn step_token(next_pos: int, next_line: int, t: SpecToken) -> SpecStep {
    SpecStep { next_pos, next_line, token: Some(t), error: None }
}

pub open spec fn step_error(next_pos: int, next_line: int, e: SpecScanError) -> SpecStep {
    SpecStep { next_pos, next_line, token: None, error: Some(e) }
}

pub open spec fn step_silent(next_pos: int, next_line: int) -> SpecStep {
    SpecStep { next_pos, next_line, token: None, error: None }
}

/// The step taken at a numeric run: one `Number` token whose numeral is
/// the exact matched text, or one `InvalidNumberFormat` error when the
/// run holds more than one decimal point.
pub open spec fn number_step(src: Seq<char>, pos: int, line: int) -> SpecStep {
    let lexeme = src.subrange(pos, number_end(src, pos));
    if number_dots(src, pos) <= 1 {
        step_token(
            number_end(src, pos),
            line,
            SpecToken {
                token_type: TokenType::Number,
                literal: SpecLiteral::Number(lexeme),
                lexeme,
                line: line as nat,
            },
        )
    } else {
        step_error(
            number_end(src, pos),
            line,
            SpecScanError { kind: ErrorKind::InvalidNumberFormat, line: line as nat, lexeme },
        )
    }
}

/// The step taken at an identifier or keyword: the reserved kind with
/// no literal on an exact keyword match, otherwise `Identifier`
/// carrying its own text.
pub open spec fn identifier_step(src: Seq<char>, pos: int, line: int) -> SpecStep {
    let text = src.subrange(pos, ident_end(src, pos));
    match spec_keyword_kind(text) {
        Some(k) => step_token(
            ident_end(src, pos),
            line,
            SpecToken {
                token_type: k,
                literal: SpecLiteral::Nothing,
                lexeme: text,
                line: line as nat,
            },
        ),
        None => step_token(
            ident_end(src, pos),
            line,
            SpecToken {
                token_type: TokenType::Identifier,
                literal: SpecLiteral::String(text),
                lexeme: text,
                line: line as nat,
            },
        ),
    }
}

/// The step taken at an opening quote: a `String` token whose literal
/// is the text strictly between the quotes (the lexeme keeps them), or
/// an `UnterminatedString` error when the input ends first.  The line
/// counter advances past every newline the string consumed.
pub open spec fn string_step(src: Seq<char>, pos: int, line: int) -> SpecStep {
    let close = string_close(src, pos + 1);
    if close < src.len() {
        SpecStep {
            next_pos: close + 1,
            next_line: line + newline_count(src, pos + 1, close),
            token: Some(
                SpecToken {
                    token_type: TokenType::String,
                    literal: SpecLiteral::String(src.subrange(pos + 1, close)),
                    lexeme: src.subrange(pos, close + 1),
                    line: line as nat,
                },
            ),
            error: None,
        }
    } else {
        SpecStep {
            next_pos: src.len() as int,
            next_line: line + newline_count(src, pos + 1, src.len() as int),
            token: None,
            error: Some(
                SpecScanError {
                    kind: ErrorKind::UnterminatedString,
                    line: line as nat,
                    lexeme: src.subrange(pos, src.len() as int),
                },
            ),
        }
    }
}

/// What one invocation of "scan next token" does at `pos`: where the
/// cursor moves, the new line counter, and the token or error emitted,
/// if any.  Whitespace and newlines are consumed silently; a newline
/// increments the line counter before the next lexeme is scanned; every
/// unresolved character is reported, never dropped.
pub open spec fn scan_step(src: Seq<char>, pos: int, line: int) -> SpecStep
    recommends
        0 <= pos < src.len(),
{
    let c = src[pos];
    match punct_kind(c) {
        Some(k) => step_token(
            pos + 1,
            line,
            SpecToken {
                token_type: k,
                literal: SpecLiteral::Nothing,
                lexeme: src.subrange(pos, pos + 1),
                line: line as nat,
            },
        ),
        None => match operator_kinds(c) {
            Some(kinds) => if pos + 1 < src.len() && src[pos + 1] == '=' {
                step_token(
                    pos + 2,
                    line,
                    SpecToken {
                        token_type: kinds.1,
                        literal: SpecLiteral::Nothing,
                        lexeme: src.subrange(pos, pos + 2),
                        line: line as nat,
                    },
                )
            } else {
                step_token(
                    pos + 1,
                    line,
                    SpecToken {
                        token_type: kinds.0,
                        literal: SpecLiteral::Nothing,
                        lexeme: src.subrange(pos, pos + 1),
                        line: line as nat,
                    },
                )
            },
            None => if c == ' ' || c == '\t' {
                step_silent(pos + 1, line)
            } else if c == '\n' {
                step_silent(pos + 1, line + 1)
            } else if c == '"' {
                string_step(src, pos, line)
            } else if is_digit_char(c) {
                number_step(src, pos, line)
            } else if is_ident_start_char(c) {
                identifier_step(src, pos, line)
            } else {
                step_error(
                    pos + 1,
                    line,
                    SpecScanError {
                        kind: ErrorKind::UnexpectedCharacter,
                        line: line as nat,
                        lexeme: src.subrange(pos, pos + 1),
                    },
                )
            },
        },
    }
}

/// Every scan step moves the cursor strictly forward and never past the
/// end of the source.
pub proof fn lemma_scan_step_advances(src: Seq<char>, pos: int, line: int)
    requires
        0 <= pos < src.len(),
    ensures
        pos < scan_step(src, pos, line).next_pos <= src.len(),
{
    let c = src[pos];
    if punct_kind(c) is Some {
    } else if operator_kinds(c) is Some {
    } else if c == ' ' || c == '\t' || c == '\n' {
    } else if c == '"' {
        lemma_string_close_bounds(src, pos + 1);
    } else if is_digit_char(c) {
        lemma_number_end_bounds(src, pos + 1);
        assert(number_end(src, pos) == number_end(src, pos + 1));
    } else if is_ident_start_char(c) {
        lemma_ident_end_bounds(src, pos + 1);
        assert(ident_end(src, pos) == ident_end(src, pos + 1));
    }
}

pub open spec fn opt_seq<A>(x: Option<A>) -> Seq<A> {
    match x {
        Some(a) => seq![a],
        None => Seq::empty(),
    }
}

/// The full scan of `src` from position `pos` with line counter
/// `line`: every token and every error from there to the end of the
/// source, in order of emission.  The scan records an error and goes
/// on from the next unconsumed character; it never stops early.
pub open spec fn scan_from(src: Seq<char>, pos: int, line: int) -> SpecScanResult
    decreases src.len() - pos,
    when 0 <= pos
    via scan_from_decreases
{
    if pos >= src.len() {
        SpecScanResult { tokens: Seq::empty(), errors: Seq::empty() }
    } else {
        let st = scan_step(src, pos, line);
        let rest = scan_from(src, st.next_pos, st.next_line);
        SpecScanResult {
            tokens: opt_seq(st.token) + rest.tokens,
            errors: opt_seq(st.error) + rest.errors,
        }
    }
}

#[via_fn]
proof fn scan_from_decreases(src: Seq<char>, pos: int, line: int) {
    if pos < src.len() {
        lemma_scan_step_advances(src, pos, line);
    }
}

/// For every single-character punctuation symbol `c`, scanning the
/// one-character source `c` yields exactly one token — kind matching
/// `c`, lexeme `c`, no literal value, line 1 — and no error.
pub proof fn lemma_single_punctuation(c: char, k: TokenType)
    requires
        punct_kind(c) == Some(k),
    ensures
        scan_from(seq![c], 0, 1).tokens == seq![
            SpecToken {
                token_type: k,
                literal: SpecLiteral::Nothing,
                lexeme: seq![c],
                line: 1,
            },
        ],
        scan_from(seq![c], 0, 1).errors == Seq::<SpecScanError>::empty(),
{
    let src = seq![c];
    let st = scan_step(src, 0, 1);
    assert(src.subrange(0, 1) =~= seq![c]);
    assert(scan_from(src, 1, 1).tokens =~= Seq::<SpecToken>::empty());
    assert(scan_from(src, 0, 1).tokens =~= seq![st.token->Some_0]);
    assert(scan_from(src, 0, 1).errors =~= Seq::<SpecScanError>::empty());
}

/// An ambiguous operator alone: scanning the one-character source
/// `c`, for `c` among `! = < >`, yields exactly the one-character
/// operator token and no error.
pub proof fn lemma_operator_single(c: char, k1: TokenType, k2: TokenType)
    requires
        operator_kinds(c) == Some((k1, k2)),
    ensures
        scan_from(seq![c], 0, 1).tokens == seq![
            SpecToken {
                token_type: k1,
                literal: SpecLiteral::Nothing,
                lexeme: seq![c],
                line: 1,
            },
        ],
        scan_from(seq![c], 0, 1).errors == Seq::<SpecScanError>::empty(),
{
    let src = seq![c];
    let st = scan_step(src, 0, 1);
    assert(src.subrange(0, 1) =~= seq![c]);
    assert(scan_from(src, 1, 1).tokens =~= Seq::<SpecToken>::empty());
    assert(scan_from(src, 0, 1).tokens =~= seq![st.token->Some_0]);
    assert(scan_from(src, 0, 1).errors =~= Seq::<SpecScanError>::empty());
}

/// The greedy tie-break: scanning the two-character source `c=`, for
/// `c` among `! = < >`, yields exactly the two-character operator
/// token, never the pair of one-character tokens, and no error.
pub proof fn lemma_operator_greedy(c: char, k1: TokenType, k2: TokenType)
    requires
        operator_kinds(c) == Some((k1, k2)),
    ensures
        scan_from(seq![c, '='], 0, 1).tokens == seq![
            SpecToken {
                token_type: k2,
                literal: SpecLiteral::Nothing,
                lexeme: seq![c, '='],
                line: 1,
            },
        ],
        scan_from(seq![c, '='], 0, 1).errors == Seq::<SpecScanError>::empty(),
{
    let src = seq![c, '='];
    let st = scan_step(src, 0, 1);
    assert(src.subrange(0, 2) =~= seq![c, '=']);
    assert(scan_from(src, 2, 1).tokens =~= Seq::<SpecToken>::empty());
    assert(scan_from(src, 0, 1).tokens =~= seq![st.token->Some_0]);
    assert(scan_from(src, 0, 1).errors =~= Seq::<SpecScanError>::empty());
}

/// Whitespace is consumed without effect: from a blank or a tab the
/// scan continues at the next character with the same tokens, the same
/// errors and the same line.  Surrounding whitespace therefore never
/// alters a token's extracted literal or its line.
pub proof fn lemma_whitespace_skipped(src: Seq<char>, pos: int, line: int)
    requires
        0 <= pos < src.len(),
        src[pos] == ' ' || src[pos] == '\t',
    ensures
        scan_from(src, pos, line) == scan_from(src, pos + 1, line),
{
    assert(scan_from(src, pos, line) =~= scan_from(src, pos + 1, line));
}

/// A newline is consumed without emitting a token, and the line
/// counter increments before the following lexeme is scanned.
pub proof fn lemma_newline_increments_line(src: Seq<char>, pos: int, line: int)
    requires
        0 <= pos < src.len(),
        src[pos] == '\n',
    ensures
        scan_from(src, pos, line) == scan_from(src, pos + 1, line + 1),
{
    assert(scan_from(src, pos, line) =~= scan_from(src, pos + 1, line + 1));
}

/// Determinism: the scan result is a function of the source text
/// alone, so two scans of equal character sequences yield identical
/// token sequences and identical error sequences.
pub proof fn lemma_scan_deterministic(src1: Seq<char>, src2: Seq<char>)
    requires
        src1 == src2,
    ensures
        scan_from(src1, 0, 1).tokens == scan_from(src2, 0, 1).tokens,
        scan_from(src1, 0, 1).errors == scan_from(src2, 0, 1).errors,
{
}

/// Error accumulation: an unexpected character is reported as one
/// `UnexpectedCharacter` error carrying the current line, and the scan
/// resumes from the next character — with its tokens unchanged and
/// every later error still collected.
pub proof fn lemma_unexpected_character_reported(src: Seq<char>, pos: int, line: int)
    requires
        0 <= pos < src.len(),
        is_unexpected_char(src[pos]),
    ensures
        scan_from(src, pos, line).tokens == scan_from(src, pos + 1, line).tokens,
        scan_from(src, pos, line).errors == seq![
            SpecScanError {
                kind: ErrorKind::UnexpectedCharacter,
                line: line as nat,
                lexeme: src.subrange(pos, pos + 1),
            },
        ] + scan_from(src, pos + 1, line).errors,
{
    assert(scan_from(src, pos, line).tokens =~= scan_from(src, pos + 1, line).tokens);
    assert(scan_from(src, pos, line).errors =~= seq![
        SpecScanError {
            kind: ErrorKind::UnexpectedCharacter,
            line: line as nat,
            lexeme: src.subrange(pos, pos + 1),
        },
    ] + scan_from(src, pos + 1, line).errors);
}

} // verus!
