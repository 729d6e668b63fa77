//! The scanner: a cursor over the source characters that hands out one token
//! per call.

use vstd::prelude::*;
use vstd::std_specs::iter::IteratorSpec;
use crate::chars::{
    byte_len, char_is_alphabetic, char_is_alphanumeric, char_is_whitespace, char_width,
    is_ascii_digit, lemma_byte_len_concat, lemma_byte_len_take_next, push_char,
};
use crate::model::{
    char_at, close_char, column_at, decimal_value, digit_class, escape_value, ident_class,
    is_ident_char, is_ident_start, lemma_line_start_bounds, lemma_run_end, line_start,
    newline_count, next_token, row_at, run_end, scan_char, scan_operator, scan_string, skip_space,
    unknown_escape, with_equal,
};
use crate::token::{
    expect_view, expected, lemma_view_kind, outcome_view, Fault, Lexeme, LexerError, Token,
};

verus! {

/// A position in the source, for diagnostics.
#[derive(Debug, Clone)]
pub struct Location {
    pub filepath: String,
    /// Zero-based line.
    pub row: usize,
    /// Zero-based byte offset within the line.
    pub col: usize,
}

/// The base-10 digits of `n`, most significant first.
pub open spec fn decimal_text(n: nat) -> Seq<char>
    decreases n,
{
    if n < 10 {
        seq![digit_of(n)]
    } else {
        decimal_text(n / 10).push(digit_of(n % 10))
    }
}

pub open spec fn digit_of(d: nat) -> char {
    (('0' as u32) + d) as char
}

/// Appends the base-10 digits of `n`.
fn push_decimal(out: &mut String, n: u128)
    ensures
        final(out)@ == old(out)@ + decimal_text(n as nat),
    decreases n,
{
    if n >= 10 {
        push_decimal(out, n / 10);
    }
    let d = (n % 10) as u32;
    let c = char_from_digit(d);
    push_char(out, c);
    proof {
        assert(old(out)@ + decimal_text(n as nat) =~= final(out)@);
    }
}

fn char_from_digit(d: u32) -> (c: char)
    requires
        d < 10,
    ensures
        c == digit_of(d as nat),
{
    match d {
        0 => '0',
        1 => '1',
        2 => '2',
        3 => '3',
        4 => '4',
        5 => '5',
        6 => '6',
        7 => '7',
        8 => '8',
        _ => '9',
    }
}

impl Location {
    /// `file:row:column`, with row and column counted from one.
    pub fn to_string(&self) -> (r: String)
        ensures
            r@ == self.filepath@ + seq![':'] + decimal_text((self.row + 1) as nat) + seq![':']
                + decimal_text((self.col + 1) as nat),
    {
        let mut text = self.filepath.clone();
        push_char(&mut text, ':');
        push_decimal(&mut text, self.row as u128 + 1);
        push_char(&mut text, ':');
        push_decimal(&mut text, self.col as u128 + 1);
        proof {
            assert(text@ =~= self.filepath@ + seq![':'] + decimal_text((self.row + 1) as nat) + seq![':']
                + decimal_text((self.col + 1) as nat));
        }
        text
    }
}

/// Scans one source unit, token by token.
#[derive(Debug, Clone)]
pub struct Lexer {
    source: Vec<char>,
    filepath: String,
    /// Index of the next character to scan.
    pos: usize,
    /// Byte offset of the next character.
    cur: usize,
    /// Zero-based line of the next character.
    row: usize,
    /// Byte offset where the current line begins.
    bol: usize,
}

fn word_char(c: char) -> (r: bool)
    ensures
        r == is_ident_char(c),
{
    char_is_alphanumeric(c) || c == '_'
}

fn digit_char(c: char) -> (r: bool)
    ensures
        r == is_ascii_digit(c),
{
    '0' <= c && c <= '9'
}

impl Lexer {
    /// The characters being scanned.
    pub closed spec fn source_chars(&self) -> Seq<char> {
        self.source@
    }

    /// The index of the next character to scan.
    pub closed spec fn position(&self) -> int {
        self.pos as int
    }

    /// The label used in diagnostics.
    pub closed spec fn path(&self) -> Seq<char> {
        self.filepath@
    }

    pub closed spec fn wf(&self) -> bool {
        let s = self.source@;
        &&& self.pos <= s.len()
        &&& byte_len(s) <= usize::MAX
        &&& self.cur == byte_len(s.take(self.pos as int))
        &&& self.bol == byte_len(s.take(line_start(s, self.pos as int)))
        &&& self.row == newline_count(s.take(self.pos as int))
        &&& self.row <= self.pos
        &&& self.bol <= self.cur
    }

    /// The cursor is where it was, in the same source.
    pub open spec fn same_source(&self, other: &Lexer) -> bool {
        &&& other.wf()
        &&& other.source_chars() == self.source_chars()
        &&& other.path() == self.path()
    }

    /// A lexer at the start of `source`; `filepath` labels its diagnostics.
    pub fn new(source: &str, filepath: String) -> (lx: Lexer)
        ensures
            lx.wf(),
            lx.source_chars() == source@,
            lx.path() == filepath@,
            lx.position() == 0,
    {
        broadcast use vstd::string::group_string_axioms;

        let n_bytes = source.as_bytes().len();
        let mut chars: Vec<char> = Vec::new();
        let mut it = source.chars();
        loop
            invariant
                chars@ + it.remaining() == source@,
                it.obeys_prophetic_iter_laws(),
                it.decrease() is Some,
            ensures
                chars@ == source@,
            decreases it.decrease()->0,
        {
            match it.next() {
                Some(c) => {
                    chars.push(c);
                },
                None => {
                    assert(chars@ =~= source@);
                    break;
                },
            }
        }
        assert(chars@ =~= source@);
        assert(chars@.take(0) =~= Seq::<char>::empty());
        Lexer { source: chars, filepath, pos: 0, cur: 0, row: 0, bol: 0 }
    }

    fn get_char(&self) -> (r: Option<char>)
        requires
            self.wf(),
        ensures
            r == char_at(self.source_chars(), self.position()),
    {
        if self.pos < self.source.len() {
            Some(self.source[self.pos])
        } else {
            None
        }
    }

    fn is_empty(&self) -> (r: bool)
        requires
            self.wf(),
        ensures
            r == (self.position() >= self.source_chars().len()),
    {
        self.pos >= self.source.len()
    }

    /// Steps over one character, if any is left.
    fn chop_char(&mut self)
        requires
            old(self).wf(),
        ensures
            old(self).same_source(final(self)),
            final(self).position() == if old(self).position() < old(self).source_chars().len() {
                old(self).position() + 1
            } else {
                old(self).position()
            },
    {
        if self.pos < self.source.len() {
            let c = self.source[self.pos];
            proof {
                let s = self.source@;
                let p = self.pos as int;
                lemma_byte_len_take_next(s, p);
                assert(s.take(p + 1).drop_last() =~= s.take(p));
            }
            self.cur = self.cur + char_width(c);
            self.pos = self.pos + 1;
            if c == '\n' {
                self.bol = self.cur;
                self.row = self.row + 1;
            }
        }
    }

    /// Skips a maximal run of whitespace.
    fn trim_left(&mut self)
        requires
            old(self).wf(),
        ensures
            old(self).same_source(final(self)),
            final(self).position() == skip_space(old(self).source_chars(), old(self).position()),
    {
        loop
            invariant
                old(self).same_source(self),
                skip_space(self.source_chars(), self.position()) == skip_space(
                    self.source_chars(),
                    old(self).position(),
                ),
            decreases self.source_chars().len() - self.position(),
        {
            match self.get_char() {
                Some(c) => {
                    if !char_is_whitespace(c) {
                        return;
                    }
                },
                None => {
                    return;
                },
            }
            self.chop_char();
        }
    }

    /// Steps over a maximal run of characters that satisfy `predicate`,
    /// which decides as `f` does.
    fn consume_while<P>(&mut self, predicate: P, Ghost(f): Ghost<spec_fn(char) -> bool>)
        where
            P: Fn(char) -> bool,
        requires
            old(self).wf(),
            forall|c: char| predicate.requires((c,)),
            forall|c: char, r: bool| predicate.ensures((c,), r) ==> r == f(c),
        ensures
            old(self).same_source(final(self)),
            final(self).position() == run_end(old(self).source_chars(), old(self).position(), f),
    {
        loop
            invariant
                old(self).same_source(self),
                run_end(self.source_chars(), self.position(), f) == run_end(
                    self.source_chars(),
                    old(self).position(),
                    f,
                ),
                forall|c: char| predicate.requires((c,)),
                forall|c: char, r: bool| predicate.ensures((c,), r) ==> r == f(c),
            decreases self.source_chars().len() - self.position(),
        {
            match self.get_char() {
                Some(c) => {
                    if !predicate(c) {
                        return;
                    }
                },
                None => {
                    return;
                },
            }
            self.chop_char();
        }
    }

    /// The source characters from `start` up to `end`, as a string.
    fn text_between(&self, start: usize, end: usize) -> (r: String)
        requires
            self.wf(),
            start <= end <= self.source_chars().len(),
        ensures
            r@ == self.source_chars().subrange(start as int, end as int),
    {
        let mut text = String::new();
        let mut i: usize = start;
        while i < end
            invariant
                self.wf(),
                start <= i <= end <= self.source_chars().len(),
                text@ == self.source_chars().subrange(start as int, i as int),
            decreases end - i,
        {
            push_char(&mut text, self.source[i]);
            proof {
                assert(self.source_chars().subrange(start as int, i + 1) =~= text@);
            }
            i = i + 1;
        }
        text
    }

    /// An identifier starting at the cursor.
    fn lex_id(&mut self) -> (r: Result<Token, LexerError>)
        requires
            old(self).wf(),
            old(self).position() < old(self).source_chars().len(),
            is_ident_start(old(self).source_chars()[old(self).position()]),
        ensures
            old(self).same_source(final(self)),
            final(self).position() == run_end(
                old(self).source_chars(),
                old(self).position(),
                ident_class(),
            ),
            outcome_view(r) == Ok::<Lexeme, Fault>(
                Lexeme::Ident(
                    old(self).source_chars().subrange(old(self).position(), final(self).position()),
                ),
            ),
    {
        let start = self.pos;
        self.consume_while(
            word_char,
            Ghost(ident_class()),
        );
        proof {
            lemma_run_end(self.source@, start as int, ident_class());
        }
        let text = self.text_between(start, self.pos);
        Ok(Token::ID(text))
    }

    /// A decimal integer starting at the cursor; the whole digit run is
    /// consumed even where its value does not fit.
    fn lex_number(&mut self) -> (r: Result<Token, LexerError>)
        requires
            old(self).wf(),
            old(self).position() < old(self).source_chars().len(),
            is_ascii_digit(old(self).source_chars()[old(self).position()]),
        ensures
            old(self).same_source(final(self)),
            final(self).position() == run_end(
                old(self).source_chars(),
                old(self).position(),
                digit_class(),
            ),
            ({
                let v = decimal_value(
                    old(self).source_chars().subrange(old(self).position(), final(self).position()),
                );
                outcome_view(r) == if v <= i32::MAX {
                    Ok::<Lexeme, Fault>(Lexeme::Int(v as i32))
                } else {
                    Err::<Lexeme, Fault>(Fault::Overflow)
                }
            }),
    {
        let start = self.pos;
        self.consume_while(
            digit_char,
            Ghost(digit_class()),
        );
        let end = self.pos;
        let ghost s = self.source@;
        proof {
            lemma_run_end(s, start as int, digit_class());
        }
        let mut value: u64 = 0;
        let mut overflow = false;
        let mut i: usize = start;
        while i < end
            invariant
                self.wf(),
                s == self.source@,
                start <= i <= end <= s.len(),
                forall|k: int| start <= k < end ==> is_ascii_digit(#[trigger] s[k]),
                overflow ==> decimal_value(s.subrange(start as int, i as int)) > i32::MAX,
                !overflow ==> value == decimal_value(s.subrange(start as int, i as int)),
                !overflow ==> value <= i32::MAX,
            decreases end - i,
        {
            let c = self.source[i];
            let d = (c as u32 - '0' as u32) as u64;
            proof {
                assert(s.subrange(start as int, i + 1).drop_last() =~= s.subrange(
                    start as int,
                    i as int,
                ));
                assert(s[i as int] == c);
                assert(is_ascii_digit(c));
            }
            if !overflow {
                let next = value * 10 + d;
                if next > i32::MAX as u64 {
                    overflow = true;
                } else {
                    value = next;
                }
            }
            i = i + 1;
        }
        if overflow {
            Err(LexerError::NumericLiteralOverflow)
        } else {
            Ok(Token::Int(value as i32))
        }
    }

    /// Decodes the character at the cursor, which follows a backslash; the
    /// cursor does not move.
    fn lex_escape_sequence(&self) -> (r: Result<char, LexerError>)
        requires
            self.wf(),
            self.position() < self.source_chars().len(),
        ensures
            ({
                let c = self.source_chars()[self.position()];
                match escape_value(c) {
                    Some(e) => r == Ok::<char, LexerError>(e),
                    None => r is Err && r->Err_0.view() == unknown_escape(c),
                }
            }),
    {
        let c = self.source[self.pos];
        match c {
            'a' => Ok('\x07'),
            'b' => Ok('\x08'),
            'e' => Ok('\x1b'),
            'f' => Ok('\x0c'),
            'v' => Ok('\x0b'),
            '?' => Ok('?'),
            'n' => Ok('\n'),
            'r' => Ok('\r'),
            't' => Ok('\t'),
            '\'' => Ok('\''),
            '"' => Ok('"'),
            '\\' => Ok('\\'),
            _ => {
                let mut sequence = String::new();
                push_char(&mut sequence, '\\');
                push_char(&mut sequence, c);
                proof {
                    assert(sequence@ =~= seq!['\\', c]);
                }
                Err(LexerError::UnknownEscapeSequence(sequence))
            },
        }
    }

    /// A string literal whose opening quote is at the cursor.
    fn lex_string(&mut self) -> (r: Result<Token, LexerError>)
        requires
            old(self).wf(),
            char_at(old(self).source_chars(), old(self).position()) == Some('"'),
        ensures
            old(self).same_source(final(self)),
            (outcome_view(r), final(self).position()) == scan_string(
                old(self).source_chars(),
                old(self).position() + 1,
                Seq::empty(),
            ),
    {
        self.chop_char();
        let mut content = String::new();
        loop
            invariant
                old(self).same_source(self),
                scan_string(self.source_chars(), self.position(), content@) == scan_string(
                    self.source_chars(),
                    old(self).position() + 1,
                    Seq::empty(),
                ),
            decreases self.source_chars().len() - self.position(),
        {
            let ch = match self.get_char() {
                Some(ch) => ch,
                None => {
                    return Err(LexerError::UnterminatedStringLiteral);
                },
            };
            if ch == '"' {
                self.chop_char();
                return Ok(Token::String(content));
            }
            if ch == '\\' {
                self.chop_char();
                if self.is_empty() {
                    return Err(LexerError::UnterminatedStringLiteral);
                }
                let real_char = self.lex_escape_sequence()?;
                push_char(&mut content, real_char);
                self.chop_char();
            } else {
                push_char(&mut content, ch);
                self.chop_char();
            }
        }
    }

    /// The closing quote of a character literal holding `value`.
    fn finish_char(&mut self, value: char) -> (r: Result<Token, LexerError>)
        requires
            old(self).wf(),
        ensures
            old(self).same_source(final(self)),
            (outcome_view(r), final(self).position()) == close_char(
                old(self).source_chars(),
                old(self).position(),
                value,
            ),
    {
        if self.get_char() == Some('\'') {
            self.chop_char();
            Ok(Token::Char(value))
        } else {
            Err(LexerError::UnterminatedCharLiteral)
        }
    }

    /// A character literal whose opening quote is at the cursor.
    fn lex_char(&mut self) -> (r: Result<Token, LexerError>)
        requires
            old(self).wf(),
            char_at(old(self).source_chars(), old(self).position()) == Some('\''),
        ensures
            old(self).same_source(final(self)),
            (outcome_view(r), final(self).position()) == scan_char(
                old(self).source_chars(),
                old(self).position(),
            ),
    {
        self.chop_char();
        let c = match self.get_char() {
            Some(c) => c,
            None => {
                return Err(LexerError::UnterminatedCharLiteral);
            },
        };
        self.chop_char();
        if c == '\'' {
            Err(LexerError::UnterminatedCharLiteral)
        } else if c == '\\' {
            if self.is_empty() {
                return Err(LexerError::UnterminatedCharLiteral);
            }
            let value = self.lex_escape_sequence()?;
            self.chop_char();
            self.finish_char(value)
        } else {
            self.finish_char(c)
        }
    }

    /// `bare`, or `eq` where the character at the cursor is `=`.
    fn with_equal(&mut self, bare: Token, eq: Token) -> (r: Result<Token, LexerError>)
        requires
            old(self).wf(),
            bare.is_fixed(),
            eq.is_fixed(),
        ensures
            old(self).same_source(final(self)),
            (outcome_view(r), final(self).position()) == with_equal(
                char_at(old(self).source_chars(), old(self).position()),
                bare,
                eq,
                old(self).position() - 1,
            ),
    {
        match self.get_char() {
            Some('=') => {
                self.chop_char();
                Ok(eq)
            },
            _ => Ok(bare),
        }
    }

    /// An operator or a separator starting at the cursor, longest match first.
    fn lex_operator_or_separator(&mut self) -> (r: Result<Token, LexerError>)
        requires
            old(self).wf(),
            old(self).position() < old(self).source_chars().len(),
        ensures
            old(self).same_source(final(self)),
            (outcome_view(r), final(self).position()) == scan_operator(
                old(self).source_chars(),
                old(self).position(),
            ),
    {
        let c = self.source[self.pos];
        self.chop_char();
        let next = self.get_char();
        match c {
            '(' => Ok(Token::OParen),
            ')' => Ok(Token::CParen),
            '{' => Ok(Token::OCurly),
            '}' => Ok(Token::CCurly),
            ',' => Ok(Token::Comma),
            ';' => Ok(Token::SemiColon),
            '=' => match next {
                None => Ok(Token::Equal),
                Some(d) => {
                    if d == '=' {
                        self.chop_char();
                        Ok(Token::EqualEqual)
                    } else if char_is_whitespace(d) || char_is_alphanumeric(d) {
                        Ok(Token::Equal)
                    } else {
                        Err(LexerError::UnknownToken(d))
                    }
                },
            },
            '+' => match next {
                Some('+') => {
                    self.chop_char();
                    Ok(Token::PlusPlus)
                },
                _ => self.with_equal(Token::Plus, Token::PlusEqual),
            },
            '-' => match next {
                Some('-') => {
                    self.chop_char();
                    Ok(Token::MinusMinus)
                },
                Some('>') => {
                    self.chop_char();
                    Ok(Token::Arrow)
                },
                _ => self.with_equal(Token::Minus, Token::MinusEqual),
            },
            '*' => self.with_equal(Token::Multiply, Token::MultiplyEqual),
            '/' => self.with_equal(Token::Divide, Token::DivideEqual),
            '%' => self.with_equal(Token::Mod, Token::ModEqual),
            '^' => self.with_equal(Token::Xor, Token::XorEqual),
            '&' => match next {
                Some('&') => {
                    self.chop_char();
                    Ok(Token::AndAnd)
                },
                _ => Ok(Token::And),
            },
            '|' => match next {
                Some('|') => {
                    self.chop_char();
                    Ok(Token::OrOr)
                },
                _ => self.with_equal(Token::Or, Token::OrEqual),
            },
            '<' => match next {
                Some('<') => {
                    self.chop_char();
                    self.with_equal(Token::ShiftLeft, Token::ShiftLeftEqual)
                },
                _ => self.with_equal(Token::Less, Token::LessEqual),
            },
            '>' => match next {
                Some('>') => {
                    self.chop_char();
                    self.with_equal(Token::ShiftRight, Token::ShiftRightEqual)
                },
                _ => self.with_equal(Token::Greater, Token::GreaterEqual),
            },
            '!' => match next {
                Some('=') => {
                    self.chop_char();
                    Ok(Token::NotEqual)
                },
                _ => Err(LexerError::UnknownToken(c)),
            },
            _ => Err(LexerError::UnknownToken(c)),
        }
    }

    /// Scans and consumes one token. At the end of input it returns `EOF`,
    /// and keeps returning it.
    pub fn get_token(&mut self) -> (r: Result<Token, LexerError>)
        requires
            old(self).wf(),
        ensures
            old(self).same_source(final(self)),
            (outcome_view(r), final(self).position()) == next_token(
                old(self).source_chars(),
                old(self).position(),
            ),
    {
        self.trim_left();
        let first_char = match self.get_char() {
            Some(c) => c,
            None => {
                return Ok(Token::EOF);
            },
        };
        if char_is_alphabetic(first_char) || first_char == '_' {
            self.lex_id()
        } else if '0' <= first_char && first_char <= '9' {
            self.lex_number()
        } else if first_char == '\'' {
            self.lex_char()
        } else if first_char == '"' {
            self.lex_string()
        } else {
            self.lex_operator_or_separator()
        }
    }

    /// Scans and consumes one token, and hands it back only where its kind
    /// is that of `expected_token`; payloads are not compared.
    pub fn expect_token(&mut self, expected_token: Token) -> (r: Result<Option<Token>, LexerError>)
        requires
            old(self).wf(),
        ensures
            old(self).same_source(final(self)),
            ({
                let (o, q) = next_token(old(self).source_chars(), old(self).position());
                &&& final(self).position() == q
                &&& expect_view(r) == expected(o, expected_token.kind_spec())
            }),
    {
        match self.get_token() {
            Ok(token) => {
                proof {
                    lemma_view_kind(token);
                }
                Ok(
                    if token == expected_token {
                        Some(token)
                    } else {
                        None
                    },
                )
            },
            Err(e) => Err(e),
        }
    }

    /// The position of the next character to scan.
    pub fn get_location(&self) -> (loc: Location)
        requires
            self.wf(),
        ensures
            loc.filepath@ == self.path(),
            loc.row == row_at(self.source_chars(), self.position()),
            loc.col == column_at(self.source_chars(), self.position()),
    {
        proof {
            let s = self.source@;
            let p = self.pos as int;
            let ls = line_start(s, p);
            lemma_line_start_bounds(s, p);
            assert(s.take(p) =~= s.take(ls) + s.subrange(ls, p));
            lemma_byte_len_concat(s.take(ls), s.subrange(ls, p));
        }
        Location { filepath: self.filepath.clone(), row: self.row, col: self.cur - self.bol }
    }
}

} // verus!
