//! The scanner.
//!
//! One left-to-right pass from source text to a token sequence ending in
//! `Eof`, tracking line and column. One character of lookahead resolves
//! the two-character operators; `//` starts a comment to the end of the
//! line; strings may span lines; a number is digits optionally followed by
//! a dot and digits, a trailing dot staying unconsumed. Identifiers are
//! checked against the keyword table. An unterminated string or an
//! unexpected character is reported and scanning continues: scan failures
//! are never fatal.
//!
//! The meaning of a scan is a family of specification functions folding a
//! step function over the text; the executable scanner is proved to
//! produce exactly the tokens and reports they describe.

use crate::num::{is_digit_char, num_of_text, parse_number};
use crate::text::{char_alphabetic, chars_range_to_string, chars_to_string, spec_alphabetic, string_to_chars};
use crate::token::{spec_keyword_type, keyword_type, LoxType, Token, TokenType};
use crate::value::{vview_opt, ValueV};
use vstd::prelude::*;

verus! {

/// A scan failure: a source position and a message. Reported, never
/// fatal.
#[derive(Debug)]
pub struct ScanError {
    pub line: usize,
    pub column: usize,
    pub message: String,
}

/// The model of a scan failure.
#[verifier::ext_equal]
pub ghost struct ScanErrV {
    pub line: int,
    pub column: int,
    pub message: Seq<char>,
}

pub open spec fn sview(e: ScanError) -> ScanErrV {
    ScanErrV { line: e.line as int, column: e.column as int, message: e.message@ }
}

pub open spec fn serrs_view(es: Seq<ScanError>) -> Seq<ScanErrV> {
    es.map_values(|e: ScanError| sview(e))
}

/// The model of a token.
#[verifier::ext_equal]
pub ghost struct TokenV {
    pub token_type: TokenType,
    pub lexeme: Seq<char>,
    pub line: int,
    pub col_start: int,
    pub col_end: int,
    pub literal: Option<ValueV>,
}

pub open spec fn token_view(t: Token) -> TokenV {
    TokenV {
        token_type: t.token_type,
        lexeme: t.lexeme@,
        line: t.line as int,
        col_start: t.col_start as int,
        col_end: t.col_end as int,
        literal: vview_opt(t.literal),
    }
}

pub open spec fn tokens_view(ts: Seq<Token>) -> Seq<TokenV> {
    ts.map_values(|t: Token| token_view(t))
}

/// The model of the scanner state: position, source position tracking, and
/// what has been produced so far.
#[verifier::ext_equal]
pub ghost struct ScanSt {
    pub pos: int,
    pub line: int,
    pub column: int,
    pub tokens: Seq<TokenV>,
    pub errors: Seq<ScanErrV>,
}

/// A token as `add_token` builds it: the column range ends at the column
/// reached after consuming the lexeme.
pub open spec fn mk_token(
    tt: TokenType,
    lexeme: Seq<char>,
    line: int,
    column: int,
    literal: Option<ValueV>,
) -> TokenV {
    TokenV {
        token_type: tt,
        lexeme: lexeme,
        line: line,
        col_start: column,
        col_end: column + lexeme.len(),
        literal: literal,
    }
}

pub open spec fn is_alpha_char(c: char) -> bool {
    spec_alphabetic(c) || c == '_'
}

pub open spec fn is_alnum_char(c: char) -> bool {
    is_alpha_char(c) || is_digit_char(c)
}

/// The end of the run of digits starting at `pos`.
pub open spec fn digits_end(src: Seq<char>, pos: int) -> int
    decreases (if 0 <= pos <= src.len() { src.len() - pos } else { 0 }),
{
    if !(0 <= pos < src.len()) {
        pos
    } else if is_digit_char(src[pos]) {
        digits_end(src, pos + 1)
    } else {
        pos
    }
}

/// The end of the run of identifier characters starting at `pos`.
pub open spec fn ident_end(src: Seq<char>, pos: int) -> int
    decreases (if 0 <= pos <= src.len() { src.len() - pos } else { 0 }),
{
    if !(0 <= pos < src.len()) {
        pos
    } else if is_alnum_char(src[pos]) {
        ident_end(src, pos + 1)
    } else {
        pos
    }
}

/// The position of the next newline at or after `pos`, or the end of the
/// text.
pub open spec fn line_end(src: Seq<char>, pos: int) -> int
    decreases (if 0 <= pos <= src.len() { src.len() - pos } else { 0 }),
{
    if !(0 <= pos < src.len()) {
        pos
    } else if src[pos] == '\n' {
        pos
    } else {
        line_end(src, pos + 1)
    }
}

/// Walk a string literal's content from just after the opening quote:
/// the position of the closing quote (or the end of text), and the line
/// and column reached.
pub open spec fn string_scan(src: Seq<char>, pos: int, line: int, column: int) -> (int, int, int)
    decreases (if 0 <= pos <= src.len() { src.len() - pos } else { 0 }),
{
    if !(0 <= pos < src.len()) {
        (pos, line, column)
    } else if src[pos] == '"' {
        (pos, line, column)
    } else if src[pos] == '\n' {
        string_scan(src, pos + 1, line + 1, 1)
    } else {
        string_scan(src, pos + 1, line, column + 1)
    }
}

/// Everything in a digit run is a digit, and the run is maximal.
pub proof fn lemma_digits_end(src: Seq<char>, pos: int)
    requires
        0 <= pos <= src.len(),
    ensures
        pos <= digits_end(src, pos) <= src.len(),
        forall|i: int| pos <= i < digits_end(src, pos) ==> is_digit_char(#[trigger] src[i]),
        digits_end(src, pos) < src.len() ==> !is_digit_char(src[digits_end(src, pos)]),
    decreases src.len() - pos,
{
    if pos < src.len() && is_digit_char(src[pos]) {
        lemma_digits_end(src, pos + 1);
    }
}

/// One step of the scan: consume one lexeme, comment, or whitespace run of
/// length one, and extend the produced tokens and reports.
pub open spec fn scan_step(src: Seq<char>, st: ScanSt) -> ScanSt {
    if !(0 <= st.pos < src.len()) {
        st
    } else {
        let start = st.pos;
        let c = src[start];
        let p1 = start + 1;
        let col1 = st.column + 1;
        if c == '(' {
            simple_token(src, st, TokenType::LeftParen)
        } else if c == ')' {
            simple_token(src, st, TokenType::RightParen)
        } else if c == '{' {
            simple_token(src, st, TokenType::LeftBrace)
        } else if c == '}' {
            simple_token(src, st, TokenType::RightBrace)
        } else if c == ',' {
            simple_token(src, st, TokenType::Comma)
        } else if c == '.' {
            simple_token(src, st, TokenType::Dot)
        } else if c == '-' {
            simple_token(src, st, TokenType::Minus)
        } else if c == '+' {
            simple_token(src, st, TokenType::Plus)
        } else if c == ';' {
            simple_token(src, st, TokenType::Semicolon)
        } else if c == '*' {
            simple_token(src, st, TokenType::Star)
        } else if c == '!' {
            two_char_token(src, st, TokenType::BangEqual, TokenType::Bang)
        } else if c == '=' {
            two_char_token(src, st, TokenType::EqualEqual, TokenType::Equal)
        } else if c == '<' {
            two_char_token(src, st, TokenType::LessEqual, TokenType::Less)
        } else if c == '>' {
            two_char_token(src, st, TokenType::GreaterEqual, TokenType::Greater)
        } else if c == '/' {
            if p1 < src.len() && src[p1] == '/' {
                let k = line_end(src, p1 + 1);
                ScanSt {
                    pos: k,
                    line: st.line,
                    column: st.column + (k - start),
                    tokens: st.tokens,
                    errors: st.errors,
                }
            } else {
                simple_token(src, st, TokenType::Slash)
            }
        } else if c == ' ' || c == '\r' || c == '\t' {
            ScanSt { pos: p1, line: st.line, column: col1, tokens: st.tokens, errors: st.errors }
        } else if c == '\n' {
            ScanSt { pos: p1, line: st.line + 1, column: 0, tokens: st.tokens, errors: st.errors }
        } else if c == '"' {
            let (q, line2, col2) = string_scan(src, p1, st.line, col1);
            if q >= src.len() {
                ScanSt {
                    pos: q,
                    line: line2,
                    column: col2,
                    tokens: st.tokens,
                    errors: st.errors.push(
                        ScanErrV { line: st.line, column: q, message: "Unterminated string."@ },
                    ),
                }
            } else {
                let lexeme = src.subrange(start, q + 1);
                ScanSt {
                    pos: q + 1,
                    line: line2,
                    column: col2 + 1,
                    tokens: st.tokens.push(
                        mk_token(
                            TokenType::String,
                            lexeme,
                            line2,
                            col2 + 1,
                            Some(ValueV::Str(src.subrange(start + 1, q))),
                        ),
                    ),
                    errors: st.errors,
                }
            }
        } else if is_digit_char(c) {
            let n1 = digits_end(src, p1);
            let n2 = if n1 < src.len() - 1 && src[n1] == '.' && is_digit_char(src[n1 + 1]) {
                digits_end(src, n1 + 1)
            } else {
                n1
            };
            let lexeme = src.subrange(start, n2);
            let col2 = st.column + (n2 - start);
            ScanSt {
                pos: n2,
                line: st.line,
                column: col2,
                tokens: st.tokens.push(
                    mk_token(
                        TokenType::Number,
                        lexeme,
                        st.line,
                        col2,
                        Some(ValueV::Num(num_of_text(lexeme))),
                    ),
                ),
                errors: st.errors,
            }
        } else if is_alpha_char(c) {
            let k = ident_end(src, p1);
            let lexeme = src.subrange(start, k);
            let col2 = st.column + (k - start);
            let tt = match spec_keyword_type(lexeme) {
                Some(t) => t,
                None => TokenType::Identifier,
            };
            ScanSt {
                pos: k,
                line: st.line,
                column: col2,
                tokens: st.tokens.push(mk_token(tt, lexeme, st.line, col2, None)),
                errors: st.errors,
            }
        } else {
            ScanSt {
                pos: p1,
                line: st.line,
                column: col1,
                tokens: st.tokens,
                errors: st.errors.push(
                    ScanErrV {
                        line: st.line,
                        column: start,
                        message: "Unexpected character: "@ + seq![c],
                    },
                ),
            }
        }
    }
}

/// A one-character token.
pub open spec fn simple_token(src: Seq<char>, st: ScanSt, tt: TokenType) -> ScanSt {
    ScanSt {
        pos: st.pos + 1,
        line: st.line,
        column: st.column + 1,
        tokens: st.tokens.push(
            mk_token(tt, src.subrange(st.pos, st.pos + 1), st.line, st.column + 1, None),
        ),
        errors: st.errors,
    }
}

/// A one- or two-character token resolved by one character of lookahead
/// for `=`.
pub open spec fn two_char_token(
    src: Seq<char>,
    st: ScanSt,
    long: TokenType,
    short: TokenType,
) -> ScanSt {
    if st.pos + 1 < src.len() && src[st.pos + 1] == '=' {
        ScanSt {
            pos: st.pos + 2,
            line: st.line,
            column: st.column + 2,
            tokens: st.tokens.push(
                mk_token(long, src.subrange(st.pos, st.pos + 2), st.line, st.column + 2, None),
            ),
            errors: st.errors,
        }
    } else {
        simple_token(src, st, short)
    }
}

/// The whole scan: fold the step over the text.
pub open spec fn scan_all(src: Seq<char>, st: ScanSt) -> ScanSt
    decreases (if 0 <= st.pos <= src.len() { src.len() - st.pos } else { 0 }),
{
    if !(0 <= st.pos < src.len()) {
        st
    } else {
        let st2 = scan_step(src, st);
        if st.pos < st2.pos <= src.len() {
            scan_all(src, st2)
        } else {
            vstd::pervasive::arbitrary()
        }
    }
}

/// The final end-of-input token.
pub open spec fn eof_token(st: ScanSt) -> TokenV {
    TokenV {
        token_type: TokenType::Eof,
        lexeme: Seq::empty(),
        line: st.line,
        col_start: st.column,
        col_end: st.column + 1,
        literal: None,
    }
}

/// The scanner: the source as characters, the tokens and reports produced
/// so far, and the position tracking of the pass.
pub struct Scanner {
    pub source: Vec<char>,
    pub tokens: Vec<Token>,
    pub start: usize,
    pub current: usize,
    pub line: usize,
    pub column: usize,
    pub errors: Vec<ScanError>,
}

impl View for Scanner {
    type V = ScanSt;

    open spec fn view(&self) -> ScanSt {
        ScanSt {
            pos: self.current as int,
            line: self.line as int,
            column: self.column as int,
            tokens: tokens_view(self.tokens@),
            errors: serrs_view(self.errors@),
        }
    }
}

impl Scanner {
    /// The scanner's working state: the position inside the text, and the
    /// line and column bounded by it, which keeps the position arithmetic
    /// inside the machine's integers.
    pub open spec fn wf(&self) -> bool {
        &&& self.source@.len() < 0x1000_0000
        &&& self.current <= self.source@.len()
        &&& self.line <= self.current + 1
        &&& self.column <= self.current
    }

    /// A scanner over the given text, positioned at its start. The text
    /// must leave room for position arithmetic in the machine's integers.
    pub fn new(source: String) -> (r: Self)
        requires
            source@.len() < 0x1000_0000,
        ensures
            r.wf(),
            r.source@ == source@,
            r@ == (ScanSt {
                pos: 0,
                line: 1,
                column: 0,
                tokens: Seq::<TokenV>::empty(),
                errors: Seq::<ScanErrV>::empty(),
            }),
    {
        let chars = string_to_chars(source.as_str());
        let r = Scanner {
            source: chars,
            tokens: Vec::new(),
            start: 0,
            current: 0,
            line: 1,
            column: 0,
            errors: Vec::new(),
        };
        proof {
            assert(tokens_view(r.tokens@) =~= Seq::<TokenV>::empty());
            assert(serrs_view(r.errors@) =~= Seq::<ScanErrV>::empty());
        }
        r
    }

    /// The line the scanner has reached.
    pub fn get_line(&self) -> (r: usize)
        ensures
            r == self.line,
    {
        self.line
    }

    fn is_at_end(&self) -> (r: bool)
        requires
            self.wf(),
        ensures
            r == (self.current == self.source@.len()),
    {
        self.current >= self.source.len()
    }
}


impl Scanner {
    /// Append a token whose lexeme is the text between `start` and the
    /// position reached.
    fn add_token_with_literal(&mut self, token_type: TokenType, literal: Option<LoxType>)
        requires
            old(self).wf(),
            old(self).start <= old(self).current,
        ensures
            final(self).wf(),
            final(self).source@ == old(self).source@,
            final(self).start == old(self).start,
            final(self).current == old(self).current,
            final(self).line == old(self).line,
            final(self).column == old(self).column,
            final(self)@ == (ScanSt {
                tokens: old(self)@.tokens.push(
                    mk_token(
                        token_type,
                        old(self).source@.subrange(old(self).start as int, old(self).current as int),
                        old(self).line as int,
                        old(self).column as int,
                        vview_opt(literal),
                    ),
                ),
                pos: old(self)@.pos,
                line: old(self)@.line,
                column: old(self)@.column,
                errors: old(self)@.errors,
            }),
    {
        let ghost before = self.tokens@;
        let ghost lit = vview_opt(literal);
        let text = chars_range_to_string(&self.source, self.start, self.current);
        let n = self.current - self.start;
        let token = Token {
            token_type,
            lexeme: text,
            line: self.line,
            col_start: self.column,
            col_end: self.column + n,
            literal,
        };
        let ghost tv = token_view(token);
        self.tokens.push(token);
        proof {
            assert(tokens_view(self.tokens@) =~= tokens_view(before).push(tv));
        }
    }

    fn add_token(&mut self, token_type: TokenType)
        requires
            old(self).wf(),
            old(self).start <= old(self).current,
        ensures
            final(self).wf(),
            final(self).source@ == old(self).source@,
            final(self).start == old(self).start,
            final(self).current == old(self).current,
            final(self).line == old(self).line,
            final(self).column == old(self).column,
            final(self)@ == (ScanSt {
                tokens: old(self)@.tokens.push(
                    mk_token(
                        token_type,
                        old(self).source@.subrange(old(self).start as int, old(self).current as int),
                        old(self).line as int,
                        old(self).column as int,
                        None,
                    ),
                ),
                pos: old(self)@.pos,
                line: old(self)@.line,
                column: old(self)@.column,
                errors: old(self)@.errors,
            }),
    {
        self.add_token_with_literal(token_type, None);
    }

    /// Report a scan failure; scanning continues.
    fn add_error(&mut self, line: usize, column: usize, message: String)
        requires
            old(self).wf(),
        ensures
            final(self).wf(),
            final(self).source@ == old(self).source@,
            final(self).start == old(self).start,
            final(self).current == old(self).current,
            final(self).line == old(self).line,
            final(self).column == old(self).column,
            final(self)@ == (ScanSt {
                errors: old(self)@.errors.push(
                    ScanErrV { line: line as int, column: column as int, message: message@ },
                ),
                pos: old(self)@.pos,
                line: old(self)@.line,
                column: old(self)@.column,
                tokens: old(self)@.tokens,
            }),
    {
        let ghost before = self.errors@;
        let e = ScanError { line, column, message };
        let ghost ev = sview(e);
        self.errors.push(e);
        proof {
            assert(serrs_view(self.errors@) =~= serrs_view(before).push(ev));
        }
    }

    /// Consume one character.
    fn advance(&mut self) -> (c: char)
        requires
            old(self).source@.len() < 0x1000_0000,
            old(self).current < old(self).source@.len(),
            old(self).column <= old(self).current,
        ensures
            final(self).source@ == old(self).source@,
            final(self).start == old(self).start,
            c == old(self).source@[old(self).current as int],
            final(self).current == old(self).current + 1,
            final(self).column == old(self).column + 1,
            final(self).line == old(self).line,
            final(self).tokens@ == old(self).tokens@,
            final(self).errors@ == old(self).errors@,
    {
        let c = self.source[self.current];
        self.current = self.current + 1;
        self.column = self.column + 1;
        c
    }

    /// Consume the next character only when it is the expected one.
    fn match_char(&mut self, expected: char) -> (r: bool)
        requires
            old(self).wf(),
        ensures
            final(self).wf(),
            final(self).source@ == old(self).source@,
            final(self).start == old(self).start,
            final(self).line == old(self).line,
            final(self).tokens@ == old(self).tokens@,
            final(self).errors@ == old(self).errors@,
            r == (old(self).current < old(self).source@.len() && old(self).source@[old(
                self,
            ).current as int] == expected),
            r ==> final(self).current == old(self).current + 1 && final(self).column == old(
                self,
            ).column + 1,
            !r ==> final(self).current == old(self).current && final(self).column == old(
                self,
            ).column,
    {
        if self.is_at_end() {
            return false;
        }
        if self.source[self.current] != expected {
            return false;
        }
        self.current = self.current + 1;
        self.column = self.column + 1;
        true
    }

    /// The next character, without consuming it; a NUL at the end of
    /// input.
    fn peek(&self) -> (c: char)
        requires
            self.wf(),
        ensures
            self.current < self.source@.len() ==> c == self.source@[self.current as int],
            self.current >= self.source@.len() ==> c == '\0',
    {
        if self.is_at_end() {
            '\0'
        } else {
            self.source[self.current]
        }
    }

    /// The character after the next one; a NUL past the end of input.
    fn peek_next(&self) -> (c: char)
        requires
            self.wf(),
        ensures
            self.current + 1 < self.source@.len() ==> c == self.source@[self.current + 1],
            self.current + 1 >= self.source@.len() ==> c == '\0',
    {
        if self.current + 1 >= self.source.len() {
            '\0'
        } else {
            self.source[self.current + 1]
        }
    }

    fn is_digit(c: char) -> (r: bool)
        ensures
            r == is_digit_char(c),
    {
        c >= '0' && c <= '9'
    }

    fn is_alpha(c: char) -> (r: bool)
        ensures
            r == is_alpha_char(c),
    {
        char_alphabetic(c) || c == '_'
    }

    fn is_alpha_numeric(c: char) -> (r: bool)
        ensures
            r == is_alnum_char(c),
    {
        Scanner::is_alpha(c) || Scanner::is_digit(c)
    }

    /// Scan a string literal after its opening quote: the literal value is
    /// the text between the quotes; an unterminated string is reported at
    /// the opening line, and scanning continues.
    #[verifier::loop_isolation(false)]
    fn string(&mut self)
        requires
            old(self).wf(),
            old(self).start + 1 == old(self).current,
            old(self).current <= old(self).source@.len(),
        ensures
            final(self).wf(),
            final(self).source@ == old(self).source@,
            old(self).current <= final(self).current,
            ({
                let (q, line2, col2) = string_scan(
                    old(self).source@,
                    old(self).current as int,
                    old(self).line as int,
                    old(self).column as int,
                );
                if q >= old(self).source@.len() {
                    final(self)@ == (ScanSt {
                        pos: q,
                        line: line2,
                        column: col2,
                        tokens: old(self)@.tokens,
                        errors: old(self)@.errors.push(
                            ScanErrV {
                                line: old(self).line as int,
                                column: q,
                                message: "Unterminated string."@,
                            },
                        ),
                    })
                } else {
                    final(self)@ == (ScanSt {
                        pos: q + 1,
                        line: line2,
                        column: col2 + 1,
                        tokens: old(self)@.tokens.push(
                            mk_token(
                                TokenType::String,
                                old(self).source@.subrange(old(self).start as int, q + 1),
                                line2,
                                col2 + 1,
                                Some(
                                    ValueV::Str(
                                        old(self).source@.subrange(old(self).start + 1, q),
                                    ),
                                ),
                            ),
                        ),
                        errors: old(self)@.errors,
                    })
                }
            }),
    {
        let ghost src = self.source@;
        let opening_line = self.line;
        loop
            invariant
                self.wf(),
                self.source@ == src,
                self.start == old(self).start,
                self.tokens@ == old(self).tokens@,
                self.errors@ == old(self).errors@,
                old(self).current <= self.current,
                string_scan(src, self.current as int, self.line as int, self.column as int)
                    == string_scan(
                    src,
                    old(self).current as int,
                    old(self).line as int,
                    old(self).column as int,
                ),
            decreases src.len() - self.current,
        {
            if self.is_at_end() {
                break ;
            }
            if self.peek() == '"' {
                break ;
            }
            if self.peek() == '\n' {
                self.line = self.line + 1;
                self.column = 0;
            }
            let _c = self.advance();
        }
        if self.is_at_end() {
            self.add_error(opening_line, self.current, String::from_str("Unterminated string."));
            return ;
        }
        let _q = self.advance();
        let content = chars_range_to_string(&self.source, self.start + 1, self.current - 1);
        self.add_token_with_literal(TokenType::String, Some(LoxType::Str(content)));
    }

    /// Scan a number: digits, optionally a dot followed by digits; a
    /// trailing dot is not consumed. The literal value is the double the
    /// text denotes.
    #[verifier::loop_isolation(false)]
    fn number(&mut self)
        requires
            old(self).wf(),
            old(self).start + 1 == old(self).current,
            old(self).current <= old(self).source@.len(),
            is_digit_char(old(self).source@[old(self).start as int]),
        ensures
            final(self).wf(),
            final(self).source@ == old(self).source@,
            old(self).current <= final(self).current,
            ({
                let src = old(self).source@;
                let n1 = digits_end(src, old(self).current as int);
                let n2 = if n1 < src.len() - 1 && src[n1] == '.' && is_digit_char(src[n1 + 1]) {
                    digits_end(src, n1 + 1)
                } else {
                    n1
                };
                let lexeme = src.subrange(old(self).start as int, n2);
                let col2 = old(self).column + (n2 - old(self).start) - 1;
                final(self)@ == (ScanSt {
                    pos: n2,
                    line: old(self)@.line,
                    column: col2,
                    tokens: old(self)@.tokens.push(
                        mk_token(
                            TokenType::Number,
                            lexeme,
                            old(self).line as int,
                            col2,
                            Some(ValueV::Num(num_of_text(lexeme))),
                        ),
                    ),
                    errors: old(self)@.errors,
                })
            }),
    {
        let ghost src = self.source@;
        loop
            invariant
                self.wf(),
                self.source@ == src,
                self.start == old(self).start,
                self.line == old(self).line,
                self.tokens@ == old(self).tokens@,
                self.errors@ == old(self).errors@,
                old(self).current <= self.current,
                self.column - old(self).column == self.current - old(self).current,
                digits_end(src, self.current as int) == digits_end(src, old(self).current as int),
            decreases src.len() - self.current,
        {
            if !Scanner::is_digit(self.peek()) {
                break ;
            }
            let _c = self.advance();
        }
        proof {
            lemma_digits_end(src, old(self).current as int);
        }
        if self.peek() == '.' && Scanner::is_digit(self.peek_next()) {
            let _dot = self.advance();
            let ghost mid = self.current as int;
            loop
                invariant
                    self.wf(),
                    self.source@ == src,
                    self.start == old(self).start,
                    self.line == old(self).line,
                    self.tokens@ == old(self).tokens@,
                    self.errors@ == old(self).errors@,
                    mid <= self.current,
                    self.column - old(self).column == self.current - old(self).current,
                    digits_end(src, self.current as int) == digits_end(src, mid),
                decreases src.len() - self.current,
            {
                if !Scanner::is_digit(self.peek()) {
                    break ;
                }
                let _c = self.advance();
            }
            proof {
                lemma_digits_end(src, mid);
                lemma_number_lexeme(src, old(self).start as int, self.current as int, mid - 1);
            }
            let text = chars_range_to_string(&self.source, self.start, self.current);
            let bits = parse_number(text.as_str());
            self.add_token_with_literal(TokenType::Number, Some(LoxType::Num(bits)));
        } else {
            proof {
                lemma_number_lexeme_plain(src, old(self).start as int, self.current as int);
            }
            let text = chars_range_to_string(&self.source, self.start, self.current);
            let bits = parse_number(text.as_str());
            self.add_token_with_literal(TokenType::Number, Some(LoxType::Num(bits)));
        }
    }

    /// Scan an identifier and resolve it against the keyword table.
    #[verifier::loop_isolation(false)]
    fn identifier(&mut self)
        requires
            old(self).wf(),
            old(self).start + 1 == old(self).current,
            old(self).current <= old(self).source@.len(),
        ensures
            final(self).wf(),
            final(self).source@ == old(self).source@,
            old(self).current <= final(self).current,
            ({
                let src = old(self).source@;
                let k = ident_end(src, old(self).current as int);
                let lexeme = src.subrange(old(self).start as int, k);
                let col2 = old(self).column + (k - old(self).start) - 1;
                let tt = match spec_keyword_type(lexeme) {
                    Some(t) => t,
                    None => TokenType::Identifier,
                };
                final(self)@ == (ScanSt {
                    pos: k,
                    line: old(self)@.line,
                    column: col2,
                    tokens: old(self)@.tokens.push(
                        mk_token(tt, lexeme, old(self).line as int, col2, None),
                    ),
                    errors: old(self)@.errors,
                })
            }),
    {
        let ghost src = self.source@;
        loop
            invariant
                self.wf(),
                self.source@ == src,
                self.start == old(self).start,
                self.line == old(self).line,
                self.tokens@ == old(self).tokens@,
                self.errors@ == old(self).errors@,
                old(self).current <= self.current,
                self.column - old(self).column == self.current - old(self).current,
                ident_end(src, self.current as int) == ident_end(src, old(self).current as int),
            decreases src.len() - self.current,
        {
            if self.is_at_end() {
                break ;
            }
            if !Scanner::is_alpha_numeric(self.peek()) {
                break ;
            }
            let _c = self.advance();
        }
        let text = chars_range_to_string(&self.source, self.start, self.current);
        let tt = match keyword_type(&text) {
            Some(t) => t,
            None => TokenType::Identifier,
        };
        self.add_token(tt);
    }
}

/// A scanned number lexeme with a fractional part has the literal shape.
proof fn lemma_number_lexeme(src: Seq<char>, start: int, end: int, dot: int)
    requires
        0 <= start < dot < end <= src.len(),
        src[dot] == '.',
        forall|i: int| start <= i < dot ==> is_digit_char(#[trigger] src[i]),
        forall|i: int| dot < i < end ==> is_digit_char(#[trigger] src[i]),
        dot + 1 < end,
    ensures
        crate::num::is_decimal_literal(src.subrange(start, end)),
{
    let s = s_sub(src, start, end);
    let k = dot - start;
    assert(s[k] == '.');
    assert forall|i: int| 0 <= i < k implies is_digit_char(#[trigger] s.subrange(0, k)[i]) by {
        assert(s.subrange(0, k)[i] == src[start + i]);
    }
    assert forall|i: int| 0 <= i < s.len() - (k + 1) implies is_digit_char(
        #[trigger] s.subrange(k + 1, s.len() as int)[i],
    ) by {
        assert(s.subrange(k + 1, s.len() as int)[i] == src[dot + 1 + i]);
    }
    assert(crate::num::all_digits(s.subrange(0, k)));
    assert(crate::num::all_digits(s.subrange(k + 1, s.len() as int)));
}

/// A scanned number lexeme without a fractional part is all digits.
proof fn lemma_number_lexeme_plain(src: Seq<char>, start: int, end: int)
    requires
        0 <= start < end <= src.len(),
        forall|i: int| start <= i < end ==> is_digit_char(#[trigger] src[i]),
    ensures
        crate::num::is_decimal_literal(src.subrange(start, end)),
{
    let s = s_sub(src, start, end);
    assert forall|i: int| 0 <= i < s.len() implies is_digit_char(#[trigger] s[i]) by {
        assert(s[i] == src[start + i]);
    }
}

spec fn s_sub(src: Seq<char>, a: int, b: int) -> Seq<char> {
    src.subrange(a, b)
}


impl Scanner {
    /// Scan one lexeme, comment, whitespace character or newline, and
    /// extend the produced tokens and reports exactly as `scan_step`
    /// says.
    #[verifier::rlimit(100)]
    #[verifier::spinoff_prover]
    fn scan_token(&mut self)
        requires
            old(self).wf(),
            old(self).current < old(self).source@.len(),
        ensures
            final(self).wf(),
            final(self).source@ == old(self).source@,
            old(self).current < final(self).current,
            final(self)@ == scan_step(old(self).source@, old(self)@),
    {
        let ghost src = self.source@;
        self.start = self.current;
        let c = self.advance();
        match c {
            '(' => self.add_token(TokenType::LeftParen),
            ')' => self.add_token(TokenType::RightParen),
            '{' => self.add_token(TokenType::LeftBrace),
            '}' => self.add_token(TokenType::RightBrace),
            ',' => self.add_token(TokenType::Comma),
            '.' => self.add_token(TokenType::Dot),
            '-' => self.add_token(TokenType::Minus),
            '+' => self.add_token(TokenType::Plus),
            ';' => self.add_token(TokenType::Semicolon),
            '*' => self.add_token(TokenType::Star),
            '!' => {
                let matched = self.match_char('=');
                self.add_token(
                    if matched {
                        TokenType::BangEqual
                    } else {
                        TokenType::Bang
                    },
                );
            },
            '=' => {
                let matched = self.match_char('=');
                self.add_token(
                    if matched {
                        TokenType::EqualEqual
                    } else {
                        TokenType::Equal
                    },
                );
            },
            '<' => {
                let matched = self.match_char('=');
                self.add_token(
                    if matched {
                        TokenType::LessEqual
                    } else {
                        TokenType::Less
                    },
                );
            },
            '>' => {
                let matched = self.match_char('=');
                self.add_token(
                    if matched {
                        TokenType::GreaterEqual
                    } else {
                        TokenType::Greater
                    },
                );
            },
            '/' => {
                if self.match_char('/') {
                    let ghost c0 = self.column as int;
                    let ghost p0 = self.current as int;
                    while !self.is_at_end() && self.peek() != '\n'
                        invariant
                            self.wf(),
                            self.source@ == src,
                            self.start == old(self).current,
                            self.line == old(self).line,
                            self.tokens@ == old(self).tokens@,
                            self.errors@ == old(self).errors@,
                            p0 <= self.current,
                            self.column - c0 == self.current - p0,
                            line_end(src, self.current as int) == line_end(src, p0),
                        decreases src.len() - self.current,
                    {
                        let _c = self.advance();
                    }
                } else {
                    self.add_token(TokenType::Slash);
                }
            },
            ' ' => {},
            '\r' => {},
            '\t' => {},
            '\n' => {
                self.line = self.line + 1;
                self.column = 0;
            },
            '"' => self.string(),
            _ => {
                if Scanner::is_digit(c) {
                    self.number();
                } else if Scanner::is_alpha(c) {
                    self.identifier();
                } else {
                    let mut m = String::from_str("Unexpected character: ");
                    let mut one: Vec<char> = Vec::new();
                    one.push(c);
                    let cs = chars_to_string(&one);
                    m.append(cs.as_str());
                    proof {
                        assert(m@ =~= "Unexpected character: "@ + seq![c]);
                    }
                    self.add_error(self.line, self.current - 1, m);
                }
            },
        }
    }

    /// Scan the whole text: every token of it, in order, followed by the
    /// end-of-input token, with every scan failure reported alongside.
    #[verifier::loop_isolation(false)]
    pub fn scan_tokens(&mut self) -> (r: Vec<Token>)
        requires
            old(self).wf(),
        ensures
            final(self).wf(),
            final(self).source@ == old(self).source@,
            ({
                let stf = scan_all(old(self).source@, old(self)@);
                &&& final(self)@.tokens == stf.tokens.push(eof_token(stf))
                &&& final(self)@.errors == stf.errors
                &&& tokens_view(r@) == final(self)@.tokens
            }),
    {
        let ghost src = self.source@;
        loop
            invariant
                self.wf(),
                self.source@ == src,
                scan_all(src, self@) == scan_all(src, old(self)@),
            decreases src.len() - self.current,
        {
            if self.is_at_end() {
                break ;
            }
            self.start = self.current;
            self.scan_token();
        }
        let ghost before = self.tokens@;
        let eof = Token {
            token_type: TokenType::Eof,
            lexeme: String::from_str(""),
            line: self.line,
            col_start: self.column,
            col_end: self.column + 1,
            literal: None,
        };
        let ghost ev = token_view(eof);
        self.tokens.push(eof);
        proof {
            assert(tokens_view(self.tokens@) =~= tokens_view(before).push(ev));
            reveal_strlit("");
            assert(""@ =~= Seq::<char>::empty());
            assert(ev == eof_token(scan_all(src, old(self)@)));
        }
        duplicate_tokens(&self.tokens)
    }
}

/// A copy of a token list whose tokens are equal, in the sense of the
/// verifier, to the originals.
fn duplicate_tokens(ts: &Vec<Token>) -> (r: Vec<Token>)
    ensures
        r@ == ts@,
{
    let mut r: Vec<Token> = Vec::new();
    let n = ts.len();
    let mut i: usize = 0;
    while i < n
        invariant
            i <= n,
            n == ts@.len(),
            r@ == ts@.subrange(0, i as int),
        decreases n - i,
    {
        r.push(ts[i].duplicate());
        i += 1;
        proof {
            assert(r@ =~= ts@.subrange(0, i as int));
        }
    }
    proof {
        assert(r@ =~= ts@);
    }
    r
}

} // verus!
