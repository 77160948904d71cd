//! The executable scanner.
//!
//! A [`Scanner`] owns one source text and is consumed by a single
//! forward pass: repeated [`Scanner::scan_token`] calls, or one
//! [`Scanner::scan_all`], fill `tokens` and `errors` with exactly what
//! the model's [`scan_from`] says for the source.

use vstd::prelude::*;
use vstd::string::StrSliceExecFns;

use crate::model::{
    ident_end, identifier_step, is_digit, is_digit_char, is_ident_continue, is_ident_start,
    is_ident_start_char, lemma_scan_step_advances, newline_count, number_dots, number_end,
    number_step, opt_seq, scan_from, scan_step, string_close, string_step,
};
use crate::token::{
    keyword_kind, ErrorKind, Literal, ScanError, SpecScanError, SpecToken, Token, TokenType,
};

verus! {

/// The scanner's whole state: the source text it owns, the lexeme
/// start and cursor offsets (in characters), the 1-based line counter,
/// and the tokens and errors accumulated so far.
pub struct Scanner {
    pub source: String,
    pub start: usize,
    pub current: usize,
    pub line: usize,
    pub tokens: Vec<Token>,
    pub errors: Vec<ScanError>,
}

impl Scanner {
    /// The accumulated tokens, viewed mathematically.
    pub open spec fn tokens_view(self) -> Seq<SpecToken> {
        self.tokens.deep_view()
    }

    /// The accumulated errors, viewed mathematically.
    pub open spec fn errors_view(self) -> Seq<SpecScanError> {
        self.errors.deep_view()
    }

    /// Well-formedness: the offsets sit inside the source, `start`
    /// never passes the cursor, and the line counter starts at 1 and
    /// grows by at most one per consumed character.  The length bound
    /// keeps the line counter inside machine range on any input.
    pub open spec fn wf(self) -> bool {
        &&& self.source@.len() < usize::MAX
        &&& self.start <= self.current
        &&& self.current <= self.source@.len()
        &&& 1 <= self.line
        &&& self.line <= self.current + 1
    }

    /// A fresh scanner over `source`: cursor at the first character,
    /// line counter 1, nothing yet emitted.
    pub fn new(source: String) -> (r: Scanner)
        requires
            source@.len() < usize::MAX,
        ensures
            r.wf(),
            r.source@ == source@,
            r.start == 0,
            r.current == 0,
            r.line == 1,
            r.tokens_view() == Seq::<SpecToken>::empty(),
            r.errors_view() == Seq::<SpecScanError>::empty(),
    {
        let r = Scanner {
            source,
            start: 0,
            current: 0,
            line: 1,
            tokens: Vec::new(),
            errors: Vec::new(),
        };
        proof {
            assert(r.tokens_view() =~= Seq::<SpecToken>::empty());
            assert(r.errors_view() =~= Seq::<SpecScanError>::empty());
        }
        r
    }

    /// End-of-input test: no character remains at the cursor.
    pub fn cur_is_eof(&self) -> (r: bool)
        ensures
            r == (self.current >= self.source@.len()),
    {
        self.current >= self.source.as_str().unicode_len()
    }

    /// Is there a character after the one at the cursor?
    pub fn cur_has_next_char(&self) -> (r: bool)
        requires
            self.wf(),
        ensures
            r == (self.current + 1 < self.source@.len()),
    {
        self.current + 1 < self.source.as_str().unicode_len()
    }

    /// The character at the cursor, unconsumed.
    pub fn cur_char(&self) -> (c: char)
        requires
            self.current < self.source@.len(),
        ensures
            c == self.source@[self.current as int],
    {
        self.source.as_str().get_char(self.current)
    }

    /// The character just after the cursor, unconsumed.
    pub fn next_char(&self) -> (c: char)
        requires
            self.wf(),
            self.current + 1 < self.source@.len(),
        ensures
            c == self.source@[self.current as int + 1],
    {
        self.source.as_str().get_char(self.current + 1)
    }

    /// Advance the cursor past one character.
    pub fn consume_char(&mut self)
        requires
            old(self).wf(),
            old(self).current < old(self).source@.len(),
        ensures
            final(self).wf(),
            final(self).current == old(self).current + 1,
            final(self).source == old(self).source,
            final(self).start == old(self).start,
            final(self).line == old(self).line,
            final(self).tokens == old(self).tokens,
            final(self).errors == old(self).errors,
    {
        self.current = self.current + 1;
    }

    /// Emit one token: its lexeme is exactly `source[start..current]`
    /// and its line is the current line counter.
    pub fn add_token(&mut self, token_type: TokenType, literal: Literal)
        requires
            old(self).wf(),
        ensures
            final(self).wf(),
            final(self).source == old(self).source,
            final(self).start == old(self).start,
            final(self).current == old(self).current,
            final(self).line == old(self).line,
            final(self).errors == old(self).errors,
            final(self).tokens_view() == old(self).tokens_view() + seq![
                SpecToken {
                    token_type: token_type,
                    literal: literal@,
                    lexeme: old(self).source@.subrange(
                        old(self).start as int,
                        old(self).current as int,
                    ),
                    line: old(self).line as nat,
                },
            ],
    {
        let lexeme = self.source.as_str().substring_char(self.start, self.current).to_owned();
        let line = self.line;
        let ghost pushed = SpecToken {
            token_type: token_type,
            literal: literal@,
            lexeme: lexeme@,
            line: line as nat,
        };
        self.tokens.push(Token { token_type, literal, lexeme, line });
        proof {
            assert(self.tokens_view() =~= old(self).tokens_view() + seq![pushed]);
        }
    }

    /// Record one lexical error: the offending text is
    /// `source[start..current]` and the line is the current line
    /// counter.  Scanning is meant to resume afterwards.
    pub fn add_error(&mut self, kind: ErrorKind)
        requires
            old(self).wf(),
        ensures
            final(self).wf(),
            final(self).source == old(self).source,
            final(self).start == old(self).start,
            final(self).current == old(self).current,
            final(self).line == old(self).line,
            final(self).tokens == old(self).tokens,
            final(self).errors_view() == old(self).errors_view() + seq![
                SpecScanError {
                    kind: kind,
                    line: old(self).line as nat,
                    lexeme: old(self).source@.subrange(
                        old(self).start as int,
                        old(self).current as int,
                    ),
                },
            ],
    {
        let lexeme = self.source.as_str().substring_char(self.start, self.current).to_owned();
        let line = self.line;
        let ghost pushed = SpecScanError { kind: kind, line: line as nat, lexeme: lexeme@ };
        self.errors.push(ScanError { kind, line, lexeme });
        proof {
            assert(self.errors_view() =~= old(self).errors_view() + seq![pushed]);
        }
    }

    /// Greedy lookahead for the two-character operators: when the
    /// character at the cursor is exactly `expected`, consume it.
    pub fn next_char_is_expected(&mut self, expected: char) -> (r: bool)
        requires
            old(self).wf(),
        ensures
            final(self).wf(),
            r == (old(self).current < old(self).source@.len()
                && old(self).source@[old(self).current as int] == expected),
            final(self).current == if r {
                old(self).current + 1
            } else {
                old(self).current as int
            },
            final(self).source == old(self).source,
            final(self).start == old(self).start,
            final(self).line == old(self).line,
            final(self).tokens == old(self).tokens,
            final(self).errors == old(self).errors,
    {
        if self.cur_is_eof() {
            return false;
        }
        if self.cur_char() == expected {
            self.consume_char();
            true
        } else {
            false
        }
    }

    /// Scan the numeric run whose first digit, at `start`, was just
    /// consumed: the maximal run of digits in which a decimal point is
    /// taken only when a digit follows it immediately.  One decimal
    /// point at most gives a `Number` token carrying the matched
    /// numeral; more give a single `InvalidNumberFormat` error for the
    /// whole run.
    pub fn add_number(&mut self)
        requires
            old(self).wf(),
            old(self).current == old(self).start + 1,
            old(self).start < old(self).source@.len(),
            is_digit_char(old(self).source@[old(self).start as int]),
        ensures
            final(self).wf(),
            final(self).source == old(self).source,
            final(self).start == old(self).start,
            ({
                let st = number_step(old(self).source@, old(self).start as int, old(self).line as int);
                &&& final(self).current as int == st.next_pos
                &&& final(self).line as int == st.next_line
                &&& final(self).tokens_view() == old(self).tokens_view() + opt_seq(st.token)
                &&& final(self).errors_view() == old(self).errors_view() + opt_seq(st.error)
            }),
    {
        let ghost src = self.source@;
        let ghost pos = self.start as int;
        let mut dots: usize = 0;
        proof {
            assert(number_end(src, pos) == number_end(src, pos + 1));
            assert(number_dots(src, pos) == number_dots(src, pos + 1));
        }
        while !self.cur_is_eof() && (is_digit(self.cur_char()) || (self.cur_char() == '.'
            && self.cur_has_next_char() && is_digit(self.next_char())))
            invariant
                self.wf(),
                self.source == old(self).source,
                self.source@ == src,
                self.start == old(self).start,
                self.line == old(self).line,
                self.tokens == old(self).tokens,
                self.errors == old(self).errors,
                0 <= pos,
                pos + 1 <= self.current as int <= src.len(),
                number_end(src, self.current as int) == number_end(src, pos),
                dots + number_dots(src, self.current as int) == number_dots(src, pos),
                dots <= self.current as int - pos,
            decreases src.len() - self.current,
        {
            if self.cur_char() == '.' {
                dots = dots + 1;
            }
            self.consume_char();
        }
        proof {
            assert(number_end(src, self.current as int) == self.current as int);
            assert(number_dots(src, self.current as int) == 0);
        }
        if dots <= 1 {
            let text = self.source.as_str().substring_char(self.start, self.current).to_owned();
            self.add_token(TokenType::Number, Literal::Number(text));
        } else {
            self.add_error(ErrorKind::InvalidNumberFormat);
        }
        proof {
            let st = number_step(src, pos, old(self).line as int);
            assert(self.tokens_view() =~= old(self).tokens_view() + opt_seq(st.token));
            assert(self.errors_view() =~= old(self).errors_view() + opt_seq(st.error));
        }
    }

    /// Scan the identifier whose first character, at `start`, was just
    /// consumed: the maximal run of alphanumerics and underscores.  An
    /// exact reserved-word match emits that keyword's kind with no
    /// literal; anything else emits `Identifier` carrying its own text.
    pub fn add_identifier(&mut self)
        requires
            old(self).wf(),
            old(self).current == old(self).start + 1,
            old(self).start < old(self).source@.len(),
            is_ident_start_char(old(self).source@[old(self).start as int]),
        ensures
            final(self).wf(),
            final(self).source == old(self).source,
            final(self).start == old(self).start,
            ({
                let st = identifier_step(
                    old(self).source@,
                    old(self).start as int,
                    old(self).line as int,
                );
                &&& final(self).current as int == st.next_pos
                &&& final(self).line as int == st.next_line
                &&& final(self).tokens_view() == old(self).tokens_view() + opt_seq(st.token)
                &&& final(self).errors_view() == old(self).errors_view() + opt_seq(st.error)
            }),
    {
        let ghost src = self.source@;
        let ghost pos = self.start as int;
        proof {
            assert(ident_end(src, pos) == ident_end(src, pos + 1));
        }
        while !self.cur_is_eof() && is_ident_continue(self.cur_char())
            invariant
                self.wf(),
                self.source == old(self).source,
                self.source@ == src,
                self.start == old(self).start,
                self.line == old(self).line,
                self.tokens == old(self).tokens,
                self.errors == old(self).errors,
                0 <= pos,
                pos + 1 <= self.current as int <= src.len(),
                ident_end(src, self.current as int) == ident_end(src, pos),
            decreases src.len() - self.current,
        {
            self.consume_char();
        }
        proof {
            assert(ident_end(src, self.current as int) == self.current as int);
        }
        let text = self.source.as_str().substring_char(self.start, self.current).to_owned();
        match keyword_kind(&text) {
            Some(k) => self.add_token(k, Literal::Nothing),
            None => self.add_token(TokenType::Identifier, Literal::String(text)),
        }
        proof {
            let st = identifier_step(src, pos, old(self).line as int);
            assert(self.tokens_view() =~= old(self).tokens_view() + opt_seq(st.token));
            assert(self.errors_view() =~= old(self).errors_view() + opt_seq(st.error));
        }
    }

    /// Scan the string whose opening quote, at `start`, was just
    /// consumed: characters are taken until a closing quote.  The
    /// token's literal is the text strictly between the quotes and its
    /// lexeme keeps them; input ending first gives an
    /// `UnterminatedString` error instead, never a truncated token.
    /// The line counter advances past every newline the string
    /// consumed, only after the token or error is recorded with the
    /// line of the opening quote.
    pub fn add_string(&mut self)
        requires
            old(self).wf(),
            old(self).current == old(self).start + 1,
            old(self).start < old(self).source@.len(),
            old(self).source@[old(self).start as int] == '"',
        ensures
            final(self).wf(),
            final(self).source == old(self).source,
            final(self).start == old(self).start,
            ({
                let st = string_step(old(self).source@, old(self).start as int, old(self).line as int);
                &&& final(self).current as int == st.next_pos
                &&& final(self).line as int == st.next_line
                &&& final(self).tokens_view() == old(self).tokens_view() + opt_seq(st.token)
                &&& final(self).errors_view() == old(self).errors_view() + opt_seq(st.error)
            }),
    {
        let ghost src = self.source@;
        let ghost pos = self.start as int;
        let mut newlines: usize = 0;
        while !self.cur_is_eof() && self.cur_char() != '"'
            invariant
                self.wf(),
                self.source == old(self).source,
                self.source@ == src,
                self.start == old(self).start,
                self.line == old(self).line,
                self.tokens == old(self).tokens,
                self.errors == old(self).errors,
                0 <= pos,
                pos + 1 <= self.current as int <= src.len(),
                string_close(src, self.current as int) == string_close(src, pos + 1),
                newlines == newline_count(src, pos + 1, self.current as int),
                newlines <= self.current as int - (pos + 1),
            decreases src.len() - self.current,
        {
            if self.cur_char() == '\n' {
                newlines = newlines + 1;
            }
            self.consume_char();
        }
        if self.cur_is_eof() {
            proof {
                assert(string_close(src, self.current as int) == src.len());
            }
            self.add_error(ErrorKind::UnterminatedString);
            self.line = self.line + newlines;
        } else {
            proof {
                assert(string_close(src, self.current as int) == self.current as int);
            }
            self.consume_char();
            let text = self.source.as_str().substring_char(self.start + 1, self.current - 1)
                .to_owned();
            self.add_token(TokenType::String, Literal::String(text));
            self.line = self.line + newlines;
        }
        proof {
            let st = string_step(src, pos, old(self).line as int);
            assert(self.tokens_view() =~= old(self).tokens_view() + opt_seq(st.token));
            assert(self.errors_view() =~= old(self).errors_view() + opt_seq(st.error));
        }
    }

    /// Scan one token: move `start` to the cursor, classify the
    /// character there, consume the lexeme it begins, and emit the
    /// token or error that [`scan_step`] calls for.  At end of input
    /// nothing but `start` moves.
    pub fn scan_token(&mut self)
        requires
            old(self).wf(),
        ensures
            final(self).wf(),
            final(self).source == old(self).source,
            final(self).start == old(self).current,
            old(self).current >= old(self).source@.len() ==> {
                &&& final(self).current == old(self).current
                &&& final(self).line == old(self).line
                &&& final(self).tokens == old(self).tokens
                &&& final(self).errors == old(self).errors
            },
            old(self).current < old(self).source@.len() ==> ({
                let st = scan_step(old(self).source@, old(self).current as int, old(self).line as int);
                &&& final(self).current as int == st.next_pos
                &&& final(self).line as int == st.next_line
                &&& final(self).tokens_view() == old(self).tokens_view() + opt_seq(st.token)
                &&& final(self).errors_view() == old(self).errors_view() + opt_seq(st.error)
            }),
    {
        self.start = self.current;
        if self.cur_is_eof() {
            return;
        }
        let c = self.cur_char();
        self.consume_char();
        match c {
            '(' => self.add_token(TokenType::LeftParen, Literal::Nothing),
            ')' => self.add_token(TokenType::RightParen, Literal::Nothing),
            '{' => self.add_token(TokenType::LeftBrace, Literal::Nothing),
            '}' => self.add_token(TokenType::RightBrace, Literal::Nothing),
            ',' => self.add_token(TokenType::Comma, Literal::Nothing),
            '.' => self.add_token(TokenType::Dot, Literal::Nothing),
            '-' => self.add_token(TokenType::Minus, Literal::Nothing),
            '+' => self.add_token(TokenType::Plus, Literal::Nothing),
            ';' => self.add_token(TokenType::Semicolon, Literal::Nothing),
            '/' => self.add_token(TokenType::Slash, Literal::Nothing),
            '*' => self.add_token(TokenType::Star, Literal::Nothing),
            '!' => {
                if self.next_char_is_expected('=') {
                    self.add_token(TokenType::BangEqual, Literal::Nothing)
                } else {
                    self.add_token(TokenType::Bang, Literal::Nothing)
                }
            },
            '=' => {
                if self.next_char_is_expected('=') {
                    self.add_token(TokenType::EqualEqual, Literal::Nothing)
                } else {
                    self.add_token(TokenType::Equal, Literal::Nothing)
                }
            },
            '<' => {
                if self.next_char_is_expected('=') {
                    self.add_token(TokenType::LessEqual, Literal::Nothing)
                } else {
                    self.add_token(TokenType::Less, Literal::Nothing)
                }
            },
            '>' => {
                if self.next_char_is_expected('=') {
                    self.add_token(TokenType::GreaterEqual, Literal::Nothing)
                } else {
                    self.add_token(TokenType::Greater, Literal::Nothing)
                }
            },
            ' ' => (),
            '\t' => (),
            '\n' => {
                self.line = self.line + 1;
            },
            '"' => self.add_string(),
            _ => {
                if is_digit(c) {
                    self.add_number();
                } else if is_ident_start(c) {
                    self.add_identifier();
                } else {
                    self.add_error(ErrorKind::UnexpectedCharacter);
                }
            },
        }
        proof {
            let st = scan_step(old(self).source@, old(self).current as int, old(self).line as int);
            assert(self.tokens_view() =~= old(self).tokens_view() + opt_seq(st.token));
            assert(self.errors_view() =~= old(self).errors_view() + opt_seq(st.error));
        }
    }

    /// Run the scan to the end of the source.  Afterwards the token
    /// and error sequences hold, beyond what was already there,
    /// exactly what [`scan_from`] says for the remaining input: the
    /// final result of a full scan is always the pair of both.
    pub fn scan_all(&mut self)
        requires
            old(self).wf(),
        ensures
            final(self).wf(),
            final(self).source == old(self).source,
            final(self).current == final(self).source@.len(),
            final(self).tokens_view() == old(self).tokens_view() + scan_from(
                old(self).source@,
                old(self).current as int,
                old(self).line as int,
            ).tokens,
            final(self).errors_view() == old(self).errors_view() + scan_from(
                old(self).source@,
                old(self).current as int,
                old(self).line as int,
            ).errors,
    {
        let ghost src = self.source@;
        while !self.cur_is_eof()
            invariant
                self.wf(),
                self.source == old(self).source,
                self.source@ == src,
                old(self).tokens_view() + scan_from(
                    src,
                    old(self).current as int,
                    old(self).line as int,
                ).tokens == self.tokens_view() + scan_from(
                    src,
                    self.current as int,
                    self.line as int,
                ).tokens,
                old(self).errors_view() + scan_from(
                    src,
                    old(self).current as int,
                    old(self).line as int,
                ).errors == self.errors_view() + scan_from(
                    src,
                    self.current as int,
                    self.line as int,
                ).errors,
            decreases src.len() - self.current,
        {
            let ghost prev: Scanner = *self;
            self.scan_token();
            proof {
                lemma_scan_step_advances(src, prev.current as int, prev.line as int);
                let st = scan_step(src, prev.current as int, prev.line as int);
                assert(scan_from(src, prev.current as int, prev.line as int).tokens =~= opt_seq(
                    st.token,
                ) + scan_from(src, st.next_pos, st.next_line).tokens);
                assert(scan_from(src, prev.current as int, prev.line as int).errors =~= opt_seq(
                    st.error,
                ) + scan_from(src, st.next_pos, st.next_line).errors);
                assert(prev.tokens_view() + scan_from(
                    src,
                    prev.current as int,
                    prev.line as int,
                ).tokens =~= self.tokens_view() + scan_from(
                    src,
                    self.current as int,
                    self.line as int,
                ).tokens);
                assert(prev.errors_view() + scan_from(
                    src,
                    prev.current as int,
                    prev.line as int,
                ).errors =~= self.errors_view() + scan_from(
                    src,
                    self.current as int,
                    self.line as int,
                ).errors);
            }
        }
        proof {
            assert(scan_from(src, self.current as int, self.line as int).tokens
                =~= Seq::<SpecToken>::empty());
            assert(scan_from(src, self.current as int, self.line as int).errors
                =~= Seq::<SpecScanError>::empty());
            assert(self.tokens_view() =~= self.tokens_view() + Seq::<SpecToken>::empty());
            assert(self.errors_view() =~= self.errors_view() + Seq::<SpecScanError>::empty());
        }
    }
}

} // verus!
