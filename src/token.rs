//! Tokens, lexical errors, and their mathematical views.

use vstd::prelude::*;

verus! {

/// One lexical unit of the source text.
#[derive(Debug, Clone)]
pub enum Token {
    /// End of input.
    EOF,
    /// A run of letters, digits and underscores that does not start with a digit.
    ID(String),
    /// A decimal integer literal.
    Int(i32),
    /// A floating-point literal, held as the bit pattern of an IEEE-754
    /// single; no scanning rule produces it yet.
    Float(u32),
    /// A character literal, with escapes decoded.
    Char(char),
    /// A string literal, with escapes decoded.
    String(String),
    Plus,
    Minus,
    Multiply,
    Divide,
    Mod,
    And,
    Or,
    Xor,
    ShiftLeft,
    ShiftRight,
    Equal,
    EqualEqual,
    NotEqual,
    Less,
    LessEqual,
    Greater,
    GreaterEqual,
    AndAnd,
    OrOr,
    PlusPlus,
    MinusMinus,
    PlusEqual,
    MinusEqual,
    MultiplyEqual,
    DivideEqual,
    ModEqual,
    OrEqual,
    XorEqual,
    ShiftLeftEqual,
    ShiftRightEqual,
    Arrow,
    OParen,
    CParen,
    OCurly,
    CCurly,
    Comma,
    SemiColon,
}

/// The mathematical value of a token: payloads as sequences, and every
/// payload-free kind as itself.
pub ghost enum Lexeme {
    End,
    Ident(Seq<char>),
    Int(i32),
    Float(u32),
    Char(char),
    Str(Seq<char>),
    Fixed(Token),
}

impl Lexeme {
    /// The token kind this value belongs to (see `Token::kind_spec`).
    pub open spec fn kind(self) -> nat {
        match self {
            Lexeme::End => 0,
            Lexeme::Ident(_) => 1,
            Lexeme::Int(_) => 2,
            Lexeme::Float(_) => 3,
            Lexeme::Char(_) => 4,
            Lexeme::Str(_) => 5,
            Lexeme::Fixed(t) => t.kind_spec(),
        }
    }
}

impl Token {
    pub open spec fn view(self) -> Lexeme {
        match self {
            Token::EOF => Lexeme::End,
            Token::ID(s) => Lexeme::Ident(s@),
            Token::Int(n) => Lexeme::Int(n),
            Token::Float(b) => Lexeme::Float(b),
            Token::Char(c) => Lexeme::Char(c),
            Token::String(s) => Lexeme::Str(s@),
            _ => Lexeme::Fixed(self),
        }
    }

    /// The variant of a token, ignoring any payload.
    pub open spec fn kind_spec(self) -> nat {
        match self {
            Token::EOF => 0,
            Token::ID(_) => 1,
            Token::Int(_) => 2,
            Token::Float(_) => 3,
            Token::Char(_) => 4,
            Token::String(_) => 5,
            Token::Plus => 6,
            Token::Minus => 7,
            Token::Multiply => 8,
            Token::Divide => 9,
            Token::Mod => 10,
            Token::And => 11,
            Token::Or => 12,
            Token::Xor => 13,
            Token::ShiftLeft => 14,
            Token::ShiftRight => 15,
            Token::Equal => 16,
            Token::EqualEqual => 17,
            Token::NotEqual => 18,
            Token::Less => 19,
            Token::LessEqual => 20,
            Token::Greater => 21,
            Token::GreaterEqual => 22,
            Token::AndAnd => 23,
            Token::OrOr => 24,
            Token::PlusPlus => 25,
            Token::MinusMinus => 26,
            Token::PlusEqual => 27,
            Token::MinusEqual => 28,
            Token::MultiplyEqual => 29,
            Token::DivideEqual => 30,
            Token::ModEqual => 31,
            Token::OrEqual => 32,
            Token::XorEqual => 33,
            Token::ShiftLeftEqual => 34,
            Token::ShiftRightEqual => 35,
            Token::Arrow => 36,
            Token::OParen => 37,
            Token::CParen => 38,
            Token::OCurly => 39,
            Token::CCurly => 40,
            Token::Comma => 41,
            Token::SemiColon => 42,
        }
    }

    /// The variant of a token as a number, ignoring any payload.
    pub fn kind(&self) -> (k: u8)
        ensures
            k == self.kind_spec(),
    {
        match self {
            Token::EOF => 0,
            Token::ID(_) => 1,
            Token::Int(_) => 2,
            Token::Float(_) => 3,
            Token::Char(_) => 4,
            Token::String(_) => 5,
            Token::Plus => 6,
            Token::Minus => 7,
            Token::Multiply => 8,
            Token::Divide => 9,
            Token::Mod => 10,
            Token::And => 11,
            Token::Or => 12,
            Token::Xor => 13,
            Token::ShiftLeft => 14,
            Token::ShiftRight => 15,
            Token::Equal => 16,
            Token::EqualEqual => 17,
            Token::NotEqual => 18,
            Token::Less => 19,
            Token::LessEqual => 20,
            Token::Greater => 21,
            Token::GreaterEqual => 22,
            Token::AndAnd => 23,
            Token::OrOr => 24,
            Token::PlusPlus => 25,
            Token::MinusMinus => 26,
            Token::PlusEqual => 27,
            Token::MinusEqual => 28,
            Token::MultiplyEqual => 29,
            Token::DivideEqual => 30,
            Token::ModEqual => 31,
            Token::OrEqual => 32,
            Token::XorEqual => 33,
            Token::ShiftLeftEqual => 34,
            Token::ShiftRightEqual => 35,
            Token::Arrow => 36,
            Token::OParen => 37,
            Token::CParen => 38,
            Token::OCurly => 39,
            Token::CCurly => 40,
            Token::Comma => 41,
            Token::SemiColon => 42,
        }
    }

    /// Whether the token is an operator or a separator, spelled by fixed text.
    pub open spec fn is_fixed(self) -> bool {
        self.kind_spec() >= 6
    }

    /// The source text of an operator or separator.
    pub open spec fn fixed_text(self) -> Seq<char> {
        match self {
            Token::Plus => seq!['+'],
            Token::Minus => seq!['-'],
            Token::Multiply => seq!['*'],
            Token::Divide => seq!['/'],
            Token::Mod => seq!['%'],
            Token::And => seq!['&'],
            Token::Or => seq!['|'],
            Token::Xor => seq!['^'],
            Token::ShiftLeft => seq!['<', '<'],
            Token::ShiftRight => seq!['>', '>'],
            Token::Equal => seq!['='],
            Token::EqualEqual => seq!['=', '='],
            Token::NotEqual => seq!['!', '='],
            Token::Less => seq!['<'],
            Token::LessEqual => seq!['<', '='],
            Token::Greater => seq!['>'],
            Token::GreaterEqual => seq!['>', '='],
            Token::AndAnd => seq!['&', '&'],
            Token::OrOr => seq!['|', '|'],
            Token::PlusPlus => seq!['+', '+'],
            Token::MinusMinus => seq!['-', '-'],
            Token::PlusEqual => seq!['+', '='],
            Token::MinusEqual => seq!['-', '='],
            Token::MultiplyEqual => seq!['*', '='],
            Token::DivideEqual => seq!['/', '='],
            Token::ModEqual => seq!['%', '='],
            Token::OrEqual => seq!['|', '='],
            Token::XorEqual => seq!['^', '='],
            Token::ShiftLeftEqual => seq!['<', '<', '='],
            Token::ShiftRightEqual => seq!['>', '>', '='],
            Token::Arrow => seq!['-', '>'],
            Token::OParen => seq!['('],
            Token::CParen => seq![')'],
            Token::OCurly => seq!['{'],
            Token::CCurly => seq!['}'],
            Token::Comma => seq![','],
            Token::SemiColon => seq![';'],
            _ => Seq::empty(),
        }
    }
}

/// Tokens compare by kind alone: two tokens of one variant are equal
/// whatever their payloads.
impl PartialEq for Token {
    fn eq(&self, other: &Token) -> (r: bool) {
        self.kind() == other.kind()
    }
}

impl vstd::std_specs::cmp::PartialEqSpecImpl for Token {
    open spec fn obeys_eq_spec() -> bool {
        true
    }

    open spec fn eq_spec(&self, other: &Token) -> bool {
        self.kind_spec() == other.kind_spec()
    }
}

/// A malformed piece of input.
#[derive(Debug, Clone)]
pub enum LexerError {
    /// End of input before the closing `"`.
    UnterminatedStringLiteral,
    /// End of input, or anything but one character, before the closing `'`.
    UnterminatedCharLiteral,
    /// A backslash followed by a character with no meaning; holds both.
    UnknownEscapeSequence(String),
    /// A character that starts no token, or that may not follow `=`.
    UnknownToken(char),
    /// A digit run whose value does not fit in an `i32`.
    NumericLiteralOverflow,
}

/// The mathematical value of a lexical error.
pub ghost enum Fault {
    UnterminatedString,
    UnterminatedChar,
    UnknownEscape(Seq<char>),
    UnknownToken(char),
    Overflow,
}

impl LexerError {
    pub open spec fn view(self) -> Fault {
        match self {
            LexerError::UnterminatedStringLiteral => Fault::UnterminatedString,
            LexerError::UnterminatedCharLiteral => Fault::UnterminatedChar,
            LexerError::UnknownEscapeSequence(s) => Fault::UnknownEscape(s@),
            LexerError::UnknownToken(c) => Fault::UnknownToken(c),
            LexerError::NumericLiteralOverflow => Fault::Overflow,
        }
    }
}

/// The mathematical value of an `expect_token` outcome.
pub open spec fn expect_view(r: Result<Option<Token>, LexerError>) -> Result<Option<Lexeme>, Fault> {
    match r {
        Ok(Some(t)) => Ok(Some(t.view())),
        Ok(None) => Ok(None),
        Err(e) => Err(e.view()),
    }
}

/// What `expect_token` owes for a scan whose outcome is `o`, against a
/// token of kind `k`.
pub open spec fn expected(o: Result<Lexeme, Fault>, k: nat) -> Result<Option<Lexeme>, Fault> {
    match o {
        Ok(l) => Ok(
            if l.kind() == k {
                Some(l)
            } else {
                None
            },
        ),
        Err(f) => Err(f),
    }
}

pub proof fn lemma_view_kind(t: Token)
    ensures
        t.view().kind() == t.kind_spec(),
{
}

/// The mathematical value of a scanning outcome.
pub open spec fn outcome_view(r: Result<Token, LexerError>) -> Result<Lexeme, Fault> {
    match r {
        Ok(t) => Ok(t.view()),
        Err(e) => Err(e.view()),
    }
}

} // verus!
