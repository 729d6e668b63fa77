//! The scanning rules as spec functions over the source characters.

use vstd::prelude::*;
use crate::chars::{byte_len, is_ascii_digit, is_letter, is_letter_or_digit, is_white_space};
use crate::token::{Fault, Lexeme, Token};

verus! {

pub open spec fn is_space(c: char) -> bool {
    is_white_space(c)
}

pub open spec fn is_ident_start(c: char) -> bool {
    is_letter(c) || c == '_'
}

pub open spec fn is_ident_char(c: char) -> bool {
    is_letter_or_digit(c) || c == '_'
}

pub open spec fn ident_class() -> spec_fn(char) -> bool {
    |c: char| is_ident_char(c)
}

pub open spec fn digit_class() -> spec_fn(char) -> bool {
    |c: char| is_ascii_digit(c)
}

/// The character at index `i`, if there is one.
pub open spec fn char_at(s: Seq<char>, i: int) -> Option<char> {
    if 0 <= i < s.len() {
        Some(s[i])
    } else {
        None
    }
}

/// The first index at or after `i` whose character does not satisfy `f`.
pub open spec fn run_end(s: Seq<char>, i: int, f: spec_fn(char) -> bool) -> int
    decreases s.len() - i,
{
    if 0 <= i < s.len() && f(s[i]) {
        run_end(s, i + 1, f)
    } else {
        i
    }
}

pub proof fn lemma_run_end(s: Seq<char>, i: int, f: spec_fn(char) -> bool)
    requires
        0 <= i <= s.len(),
    ensures
        i <= run_end(s, i, f) <= s.len(),
        forall|k: int| i <= k < run_end(s, i, f) ==> f(#[trigger] s[k]),
        run_end(s, i, f) < s.len() ==> !f(s[run_end(s, i, f)]),
    decreases s.len() - i,
{
    if i < s.len() && f(s[i]) {
        lemma_run_end(s, i + 1, f);
    }
}

/// The first index at or after `i` that does not hold whitespace.
pub open spec fn skip_space(s: Seq<char>, i: int) -> int
    decreases s.len() - i,
{
    if 0 <= i < s.len() && is_space(s[i]) {
        skip_space(s, i + 1)
    } else {
        i
    }
}

pub open spec fn digit_value(c: char) -> nat {
    ((c as u32) - ('0' as u32)) as nat
}

/// The base-10 value of a run of digits.
pub open spec fn decimal_value(d: Seq<char>) -> nat
    decreases d.len(),
{
    if d.len() == 0 {
        0
    } else {
        decimal_value(d.drop_last()) * 10 + digit_value(d.last())
    }
}

/// What the character after a backslash stands for, if anything.
pub open spec fn escape_value(c: char) -> Option<char> {
    match c {
        'a' => Some('\x07'),
        'b' => Some('\x08'),
        'e' => Some('\x1b'),
        'f' => Some('\x0c'),
        'v' => Some('\x0b'),
        '?' => Some('?'),
        'n' => Some('\n'),
        'r' => Some('\r'),
        't' => Some('\t'),
        '\'' => Some('\''),
        '"' => Some('"'),
        '\\' => Some('\\'),
        _ => None,
    }
}

pub open spec fn unknown_escape(c: char) -> Fault {
    Fault::UnknownEscape(seq!['\\', c])
}

/// The rest of a string literal from index `i`, with `acc` decoded so far:
/// the outcome and the index after what was consumed.
pub open spec fn scan_string(s: Seq<char>, i: int, acc: Seq<char>) -> (Result<Lexeme, Fault>, int)
    decreases s.len() - i,
{
    if i < 0 || i >= s.len() {
        (Err(Fault::UnterminatedString), s.len() as int)
    } else if s[i] == '"' {
        (Ok(Lexeme::Str(acc)), i + 1)
    } else if s[i] == '\\' {
        if i + 1 >= s.len() {
            (Err(Fault::UnterminatedString), s.len() as int)
        } else {
            match escape_value(s[i + 1]) {
                Some(e) => scan_string(s, i + 2, acc.push(e)),
                None => (Err(unknown_escape(s[i + 1])), i + 1),
            }
        }
    } else {
        scan_string(s, i + 1, acc.push(s[i]))
    }
}

/// The closing quote of a character literal holding `v`, expected at `j`.
pub open spec fn close_char(s: Seq<char>, j: int, v: char) -> (Result<Lexeme, Fault>, int) {
    if char_at(s, j) == Some('\'') {
        (Ok(Lexeme::Char(v)), j + 1)
    } else {
        (Err(Fault::UnterminatedChar), j)
    }
}

/// A character literal whose opening quote is at `p`.
pub open spec fn scan_char(s: Seq<char>, p: int) -> (Result<Lexeme, Fault>, int) {
    let i = p + 1;
    if i >= s.len() {
        (Err(Fault::UnterminatedChar), i)
    } else if s[i] == '\'' {
        (Err(Fault::UnterminatedChar), i + 1)
    } else if s[i] == '\\' {
        if i + 1 >= s.len() {
            (Err(Fault::UnterminatedChar), i + 1)
        } else {
            match escape_value(s[i + 1]) {
                Some(e) => close_char(s, i + 2, e),
                None => (Err(unknown_escape(s[i + 1])), i + 1),
            }
        }
    } else {
        close_char(s, i + 1, s[i])
    }
}

pub open spec fn fixed(t: Token, end: int) -> (Result<Lexeme, Fault>, int) {
    (Ok(Lexeme::Fixed(t)), end)
}

/// An operator `c` or `c=`, by the character `n` after `c`.
pub open spec fn with_equal(n: Option<char>, bare: Token, eq: Token, p: int) -> (
    Result<Lexeme, Fault>,
    int,
) {
    if n == Some('=') {
        fixed(eq, p + 2)
    } else {
        fixed(bare, p + 1)
    }
}

/// An operator or separator starting at `p`, longest match first. A bare `=`
/// must be followed by whitespace, a letter or digit, or the end of input;
/// any other character after it is refused as an unknown token.
pub open spec fn scan_operator(s: Seq<char>, p: int) -> (Result<Lexeme, Fault>, int) {
    let c = s[p];
    let n = char_at(s, p + 1);
    if c == '(' {
        fixed(Token::OParen, p + 1)
    } else if c == ')' {
        fixed(Token::CParen, p + 1)
    } else if c == '{' {
        fixed(Token::OCurly, p + 1)
    } else if c == '}' {
        fixed(Token::CCurly, p + 1)
    } else if c == ',' {
        fixed(Token::Comma, p + 1)
    } else if c == ';' {
        fixed(Token::SemiColon, p + 1)
    } else if c == '=' {
        match n {
            None => fixed(Token::Equal, p + 1),
            Some(d) => if d == '=' {
                fixed(Token::EqualEqual, p + 2)
            } else if is_space(d) || is_letter_or_digit(d) {
                fixed(Token::Equal, p + 1)
            } else {
                (Err(Fault::UnknownToken(d)), p + 1)
            },
        }
    } else if c == '+' {
        if n == Some('+') {
            fixed(Token::PlusPlus, p + 2)
        } else {
            with_equal(n, Token::Plus, Token::PlusEqual, p)
        }
    } else if c == '-' {
        if n == Some('-') {
            fixed(Token::MinusMinus, p + 2)
        } else if n == Some('>') {
            fixed(Token::Arrow, p + 2)
        } else {
            with_equal(n, Token::Minus, Token::MinusEqual, p)
        }
    } else if c == '*' {
        with_equal(n, Token::Multiply, Token::MultiplyEqual, p)
    } else if c == '/' {
        with_equal(n, Token::Divide, Token::DivideEqual, p)
    } else if c == '%' {
        with_equal(n, Token::Mod, Token::ModEqual, p)
    } else if c == '^' {
        with_equal(n, Token::Xor, Token::XorEqual, p)
    } else if c == '&' {
        if n == Some('&') {
            fixed(Token::AndAnd, p + 2)
        } else {
            fixed(Token::And, p + 1)
        }
    } else if c == '|' {
        if n == Some('|') {
            fixed(Token::OrOr, p + 2)
        } else {
            with_equal(n, Token::Or, Token::OrEqual, p)
        }
    } else if c == '<' {
        if n == Some('<') {
            with_equal(char_at(s, p + 2), Token::ShiftLeft, Token::ShiftLeftEqual, p + 1)
        } else {
            with_equal(n, Token::Less, Token::LessEqual, p)
        }
    } else if c == '>' {
        if n == Some('>') {
            with_equal(char_at(s, p + 2), Token::ShiftRight, Token::ShiftRightEqual, p + 1)
        } else {
            with_equal(n, Token::Greater, Token::GreaterEqual, p)
        }
    } else if c == '!' && n == Some('=') {
        fixed(Token::NotEqual, p + 2)
    } else {
        (Err(Fault::UnknownToken(c)), p + 1)
    }
}

/// One token scanned from index `pos`: the outcome, and the index where the
/// scan stopped.
pub open spec fn next_token(s: Seq<char>, pos: int) -> (Result<Lexeme, Fault>, int) {
    let p = skip_space(s, pos);
    if p >= s.len() {
        (Ok(Lexeme::End), p)
    } else if is_ident_start(s[p]) {
        let q = run_end(s, p, ident_class());
        (Ok(Lexeme::Ident(s.subrange(p, q))), q)
    } else if is_ascii_digit(s[p]) {
        let q = run_end(s, p, digit_class());
        let v = decimal_value(s.subrange(p, q));
        if v <= i32::MAX {
            (Ok(Lexeme::Int(v as i32)), q)
        } else {
            (Err(Fault::Overflow), q)
        }
    } else if s[p] == '\'' {
        scan_char(s, p)
    } else if s[p] == '"' {
        scan_string(s, p + 1, Seq::empty())
    } else {
        scan_operator(s, p)
    }
}

/// Number of line feeds in `s`.
pub open spec fn newline_count(s: Seq<char>) -> nat
    decreases s.len(),
{
    if s.len() == 0 {
        0
    } else {
        newline_count(s.drop_last()) + if s.last() == '\n' {
            1nat
        } else {
            0nat
        }
    }
}

/// The index where the line holding index `p` begins.
pub open spec fn line_start(s: Seq<char>, p: int) -> int
    decreases p,
{
    if p <= 0 {
        0
    } else if s[p - 1] == '\n' {
        p
    } else {
        line_start(s, p - 1)
    }
}

pub proof fn lemma_line_start_bounds(s: Seq<char>, p: int)
    requires
        0 <= p,
    ensures
        0 <= line_start(s, p) <= p,
    decreases p,
{
    if p > 0 && s[p - 1] != '\n' {
        lemma_line_start_bounds(s, p - 1);
    }
}

/// Zero-based line of index `p`.
pub open spec fn row_at(s: Seq<char>, p: int) -> nat {
    newline_count(s.take(p))
}

/// Zero-based column of index `p`, in bytes from the start of its line.
pub open spec fn column_at(s: Seq<char>, p: int) -> nat {
    byte_len(s.subrange(line_start(s, p), p))
}

} // verus!
