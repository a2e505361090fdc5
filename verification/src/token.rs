//! Tokens and runtime values.

use crate::function::Callable;
use vstd::prelude::*;

verus! {

/// The kind of a token. Keywords are distinguished from identifiers by the
/// scanner, which checks each identifier against the keyword table.
#[derive(Debug, Clone, Copy, PartialEq, Eq, Structural)]
pub enum TokenType {
    // Single-character tokens.
    LeftParen,
    RightParen,
    LeftBrace,
    RightBrace,
    Comma,
    Dot,
    Minus,
    Plus,
    Semicolon,
    Slash,
    Star,
    // One or two character tokens.
    Bang,
    BangEqual,
    Equal,
    EqualEqual,
    Greater,
    GreaterEqual,
    Less,
    LessEqual,
    // Literals.
    Identifier,
    String,
    Number,
    // Keywords.
    And,
    Class,
    Else,
    False,
    For,
    Fun,
    If,
    Nil,
    Or,
    Print,
    Return,
    Super,
    This,
    True,
    Var,
    While,
    // End of input.
    Eof,
}

/// A runtime value. `nil` is modelled as the absence of a value, so the
/// evaluator works with `Option<LoxType>` throughout. A number carries the
/// bit pattern of an IEEE-754 double.
#[derive(Debug)]
pub enum LoxType {
    Str(String),
    Num(u64),
    Bool(bool),
    Callable(Callable),
}

impl LoxType {
    pub fn new_str(s: &str) -> (r: Self)
        ensures
            r matches LoxType::Str(t) && t@ == s@,
    {
        LoxType::Str(s.to_owned())
    }

    pub fn new_num(n: u64) -> (r: Self)
        ensures
            r == LoxType::Num(n),
    {
        LoxType::Num(n)
    }

    pub fn new_bool(b: bool) -> (r: Self)
        ensures
            r == LoxType::Bool(b),
    {
        LoxType::Bool(b)
    }

    /// A copy that is equal, in the sense of the verifier, to the original.
    pub fn duplicate(&self) -> (r: Self)
        ensures
            r == *self,
    {
        match self {
            LoxType::Str(s) => LoxType::Str(s.clone()),
            LoxType::Num(n) => LoxType::Num(*n),
            LoxType::Bool(b) => LoxType::Bool(*b),
            LoxType::Callable(c) => LoxType::Callable(c.duplicate()),
        }
    }
}

/// A copy of an optional value, equal to the original.
pub fn duplicate_value(v: &Option<LoxType>) -> (r: Option<LoxType>)
    ensures
        r == *v,
{
    match v {
        Some(x) => Some(x.duplicate()),
        None => None,
    }
}

/// A literal value as it appears in source text: a string, a number or a
/// boolean. Callables exist only at runtime, so a literal can never hold
/// one.
#[derive(Debug)]
pub enum LitValue {
    Str(String),
    Num(u64),
    Bool(bool),
}

impl LitValue {
    /// A copy that is equal, in the sense of the verifier, to the original.
    pub fn duplicate(&self) -> (r: Self)
        ensures
            r == *self,
    {
        match self {
            LitValue::Str(s) => LitValue::Str(s.clone()),
            LitValue::Num(n) => LitValue::Num(*n),
            LitValue::Bool(b) => LitValue::Bool(*b),
        }
    }
}

/// One token: kind, source text, position, and the literal value for
/// string and number tokens.
#[derive(Debug)]
pub struct Token {
    pub token_type: TokenType,
    pub lexeme: String,
    pub line: usize,
    pub col_start: usize,
    pub col_end: usize,
    pub literal: Option<LoxType>,
}

impl Token {
    pub fn new(
        token_type: TokenType,
        lexeme: String,
        line: usize,
        col_start: usize,
        col_end: usize,
        literal: Option<LoxType>,
    ) -> (r: Self)
        ensures
            r == (Token { token_type, lexeme, line, col_start, col_end, literal }),
    {
        Token { token_type, lexeme, line, col_start, col_end, literal }
    }

    /// The token in one line of text: its kind and its source text.
    pub fn to_string(&self) -> (r: String)
        ensures
            r@ == spec_token_type_text(self.token_type) + " "@ + self.lexeme@,
    {
        let mut r = token_type_text(self.token_type);
        r.append(" ");
        r.append(self.lexeme.as_str());
        r
    }

    /// A copy that is equal, in the sense of the verifier, to the original.
    pub fn duplicate(&self) -> (r: Self)
        ensures
            r == *self,
    {
        Token {
            token_type: self.token_type,
            lexeme: self.lexeme.clone(),
            line: self.line,
            col_start: self.col_start,
            col_end: self.col_end,
            literal: duplicate_value(&self.literal),
        }
    }
}

/// The name of a token kind, as `to_string` spells it.
pub open spec fn spec_token_type_text(tt: TokenType) -> Seq<char> {
    match tt {
        TokenType::LeftParen => "left_paren"@,
        TokenType::RightParen => "right_paren"@,
        TokenType::LeftBrace => "left_brace"@,
        TokenType::RightBrace => "right_brace"@,
        TokenType::Comma => "comma"@,
        TokenType::Dot => "dot"@,
        TokenType::Minus => "minus"@,
        TokenType::Plus => "plus"@,
        TokenType::Semicolon => "semicolon"@,
        TokenType::Slash => "slash"@,
        TokenType::Star => "star"@,
        TokenType::Bang => "bang"@,
        TokenType::BangEqual => "bang_equal"@,
        TokenType::Equal => "equal"@,
        TokenType::EqualEqual => "equal_equal"@,
        TokenType::Greater => "greater"@,
        TokenType::GreaterEqual => "greater_equal"@,
        TokenType::Less => "less"@,
        TokenType::LessEqual => "less_equal"@,
        TokenType::Identifier => "identifier"@,
        TokenType::String => "string"@,
        TokenType::Number => "number"@,
        TokenType::And => "kw_and"@,
        TokenType::Class => "kw_class"@,
        TokenType::Else => "kw_else"@,
        TokenType::False => "kw_false"@,
        TokenType::For => "kw_for"@,
        TokenType::Fun => "kw_fun"@,
        TokenType::If => "kw_if"@,
        TokenType::Nil => "kw_nil"@,
        TokenType::Or => "kw_or"@,
        TokenType::Print => "kw_print"@,
        TokenType::Return => "kw_return"@,
        TokenType::Super => "kw_super"@,
        TokenType::This => "kw_this"@,
        TokenType::True => "kw_true"@,
        TokenType::Var => "kw_var"@,
        TokenType::While => "kw_while"@,
        TokenType::Eof => "eof"@,
    }
}

/// The name of a token kind.
pub fn token_type_text(tt: TokenType) -> (r: String)
    ensures
        r@ == spec_token_type_text(tt),
{
    match tt {
        TokenType::LeftParen => String::from_str("left_paren"),
        TokenType::RightParen => String::from_str("right_paren"),
        TokenType::LeftBrace => String::from_str("left_brace"),
        TokenType::RightBrace => String::from_str("right_brace"),
        TokenType::Comma => String::from_str("comma"),
        TokenType::Dot => String::from_str("dot"),
        TokenType::Minus => String::from_str("minus"),
        TokenType::Plus => String::from_str("plus"),
        TokenType::Semicolon => String::from_str("semicolon"),
        TokenType::Slash => String::from_str("slash"),
        TokenType::Star => String::from_str("star"),
        TokenType::Bang => String::from_str("bang"),
        TokenType::BangEqual => String::from_str("bang_equal"),
        TokenType::Equal => String::from_str("equal"),
        TokenType::EqualEqual => String::from_str("equal_equal"),
        TokenType::Greater => String::from_str("greater"),
        TokenType::GreaterEqual => String::from_str("greater_equal"),
        TokenType::Less => String::from_str("less"),
        TokenType::LessEqual => String::from_str("less_equal"),
        TokenType::Identifier => String::from_str("identifier"),
        TokenType::String => String::from_str("string"),
        TokenType::Number => String::from_str("number"),
        TokenType::And => String::from_str("kw_and"),
        TokenType::Class => String::from_str("kw_class"),
        TokenType::Else => String::from_str("kw_else"),
        TokenType::False => String::from_str("kw_false"),
        TokenType::For => String::from_str("kw_for"),
        TokenType::Fun => String::from_str("kw_fun"),
        TokenType::If => String::from_str("kw_if"),
        TokenType::Nil => String::from_str("kw_nil"),
        TokenType::Or => String::from_str("kw_or"),
        TokenType::Print => String::from_str("kw_print"),
        TokenType::Return => String::from_str("kw_return"),
        TokenType::Super => String::from_str("kw_super"),
        TokenType::This => String::from_str("kw_this"),
        TokenType::True => String::from_str("kw_true"),
        TokenType::Var => String::from_str("kw_var"),
        TokenType::While => String::from_str("kw_while"),
        TokenType::Eof => String::from_str("eof"),
    }
}

/// The keyword table as a sequence of (spelling, kind) pairs.
pub open spec fn spec_keywords() -> Seq<(Seq<char>, TokenType)> {
    seq![
        ("and"@, TokenType::And),
        ("class"@, TokenType::Class),
        ("else"@, TokenType::Else),
        ("false"@, TokenType::False),
        ("for"@, TokenType::For),
        ("fun"@, TokenType::Fun),
        ("if"@, TokenType::If),
        ("nil"@, TokenType::Nil),
        ("or"@, TokenType::Or),
        ("print"@, TokenType::Print),
        ("return"@, TokenType::Return),
        ("super"@, TokenType::Super),
        ("this"@, TokenType::This),
        ("true"@, TokenType::True),
        ("var"@, TokenType::Var),
        ("while"@, TokenType::While),
    ]
}

/// The token kind an identifier spelling resolves to: a keyword kind when
/// the spelling is in the table, a generic identifier otherwise.
pub open spec fn spec_keyword_type(s: Seq<char>) -> Option<TokenType> {
    if s == "and"@ {
        Some(TokenType::And)
    } else if s == "class"@ {
        Some(TokenType::Class)
    } else if s == "else"@ {
        Some(TokenType::Else)
    } else if s == "false"@ {
        Some(TokenType::False)
    } else if s == "for"@ {
        Some(TokenType::For)
    } else if s == "fun"@ {
        Some(TokenType::Fun)
    } else if s == "if"@ {
        Some(TokenType::If)
    } else if s == "nil"@ {
        Some(TokenType::Nil)
    } else if s == "or"@ {
        Some(TokenType::Or)
    } else if s == "print"@ {
        Some(TokenType::Print)
    } else if s == "return"@ {
        Some(TokenType::Return)
    } else if s == "super"@ {
        Some(TokenType::Super)
    } else if s == "this"@ {
        Some(TokenType::This)
    } else if s == "true"@ {
        Some(TokenType::True)
    } else if s == "var"@ {
        Some(TokenType::Var)
    } else if s == "while"@ {
        Some(TokenType::While)
    } else {
        None
    }
}

/// The keyword table, one (spelling, kind) pair per keyword, in a fixed
/// order.
pub fn get_keywords_map() -> (r: Vec<(String, TokenType)>)
    ensures
        r@.len() == spec_keywords().len(),
        forall|i: int|
            0 <= i < r@.len() ==> (#[trigger] r@[i]).0@ == spec_keywords()[i].0 && r@[i].1
                == spec_keywords()[i].1,
{
    let mut r: Vec<(String, TokenType)> = Vec::new();
    r.push((String::from_str("and"), TokenType::And));
    r.push((String::from_str("class"), TokenType::Class));
    r.push((String::from_str("else"), TokenType::Else));
    r.push((String::from_str("false"), TokenType::False));
    r.push((String::from_str("for"), TokenType::For));
    r.push((String::from_str("fun"), TokenType::Fun));
    r.push((String::from_str("if"), TokenType::If));
    r.push((String::from_str("nil"), TokenType::Nil));
    r.push((String::from_str("or"), TokenType::Or));
    r.push((String::from_str("print"), TokenType::Print));
    r.push((String::from_str("return"), TokenType::Return));
    r.push((String::from_str("super"), TokenType::Super));
    r.push((String::from_str("this"), TokenType::This));
    r.push((String::from_str("true"), TokenType::True));
    r.push((String::from_str("var"), TokenType::Var));
    r.push((String::from_str("while"), TokenType::While));
    r
}

/// Resolve an identifier spelling against the keyword table.
pub fn keyword_type(text: &String) -> (r: Option<TokenType>)
    ensures
        r == spec_keyword_type(text@),
{
    if *text == String::from_str("and") {
        Some(TokenType::And)
    } else if *text == String::from_str("class") {
        Some(TokenType::Class)
    } else if *text == String::from_str("else") {
        Some(TokenType::Else)
    } else if *text == String::from_str("false") {
        Some(TokenType::False)
    } else if *text == String::from_str("for") {
        Some(TokenType::For)
    } else if *text == String::from_str("fun") {
        Some(TokenType::Fun)
    } else if *text == String::from_str("if") {
        Some(TokenType::If)
    } else if *text == String::from_str("nil") {
        Some(TokenType::Nil)
    } else if *text == String::from_str("or") {
        Some(TokenType::Or)
    } else if *text == String::from_str("print") {
        Some(TokenType::Print)
    } else if *text == String::from_str("return") {
        Some(TokenType::Return)
    } else if *text == String::from_str("super") {
        Some(TokenType::Super)
    } else if *text == String::from_str("this") {
        Some(TokenType::This)
    } else if *text == String::from_str("true") {
        Some(TokenType::True)
    } else if *text == String::from_str("var") {
        Some(TokenType::Var)
    } else if *text == String::from_str("while") {
        Some(TokenType::While)
    } else {
        None
    }
}

} // verus!
