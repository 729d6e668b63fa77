//! Properties of the token stream, proved over the scanning rules.

use vstd::prelude::*;
use crate::model::{
    column_at, digit_class, ident_class, is_space, lemma_run_end, next_token, row_at, scan_string,
    skip_space,
};
use crate::token::{Lexeme, Token};
use crate::chars::byte_len;

verus! {

proof fn lemma_skip_blank(s: Seq<char>, i: int)
    requires
        0 <= i <= s.len(),
        forall|k: int| i <= k < s.len() ==> is_space(#[trigger] s[k]),
    ensures
        skip_space(s, i) == s.len(),
    decreases s.len() - i,
{
    if i < s.len() {
        lemma_skip_blank(s, i + 1);
    }
}

proof fn lemma_skip_space_bounds(s: Seq<char>, i: int)
    requires
        0 <= i <= s.len(),
    ensures
        i <= skip_space(s, i) <= s.len(),
    decreases s.len() - i,
{
    if i < s.len() && is_space(s[i]) {
        lemma_skip_space_bounds(s, i + 1);
    }
}

proof fn lemma_scan_string_bounds(s: Seq<char>, i: int, acc: Seq<char>)
    requires
        0 <= i <= s.len(),
    ensures
        i <= scan_string(s, i, acc).1 <= s.len(),
        i < s.len() ==> i < scan_string(s, i, acc).1,
    decreases s.len() - i,
{
    if i < s.len() && s[i] != '"' {
        if s[i] == '\\' {
            if i + 1 < s.len() {
                let e = crate::model::escape_value(s[i + 1]);
                if e is Some {
                    lemma_scan_string_bounds(s, i + 2, acc.push(e->Some_0));
                }
            }
        } else {
            lemma_scan_string_bounds(s, i + 1, acc.push(s[i]));
        }
    }
}

/// A scan never moves the cursor back nor past the end, and a scan that
/// does not end the input consumes at least one character.
pub proof fn lemma_scan_advances(s: Seq<char>, pos: int)
    requires
        0 <= pos <= s.len(),
    ensures
        pos <= next_token(s, pos).1 <= s.len(),
        next_token(s, pos).0 != Ok::<Lexeme, crate::token::Fault>(Lexeme::End) ==> pos
            < next_token(s, pos).1,
{
    lemma_skip_space_bounds(s, pos);
    let p = skip_space(s, pos);
    if p < s.len() {
        lemma_run_end(s, p, ident_class());
        lemma_run_end(s, p, digit_class());
        lemma_scan_string_bounds(s, p + 1, Seq::empty());
    }
}

/// Where only whitespace is left, the scan ends the input, and from the end
/// every further scan ends it again without moving.
pub proof fn lemma_blank_input_ends(s: Seq<char>, pos: int)
    requires
        0 <= pos <= s.len(),
        forall|k: int| pos <= k < s.len() ==> is_space(#[trigger] s[k]),
    ensures
        next_token(s, pos) == (Ok::<Lexeme, crate::token::Fault>(Lexeme::End), s.len() as int),
        next_token(s, s.len() as int) == (
            Ok::<Lexeme, crate::token::Fault>(Lexeme::End),
            s.len() as int,
        ),
{
    lemma_skip_blank(s, pos);
    lemma_skip_blank(s, s.len() as int);
}

/// The text of any operator or separator, scanned alone, gives that token
/// and then the end of input.
pub proof fn lemma_fixed_text_round_trip(t: Token)
    requires
        t.is_fixed(),
    ensures
        next_token(t.fixed_text(), 0) == (
            Ok::<Lexeme, crate::token::Fault>(Lexeme::Fixed(t)),
            t.fixed_text().len() as int,
        ),
        next_token(t.fixed_text(), t.fixed_text().len() as int) == (
            Ok::<Lexeme, crate::token::Fault>(Lexeme::End),
            t.fixed_text().len() as int,
        ),
{
    let s = t.fixed_text();
    assert(s.len() >= 1);
    assert(skip_space(s, 0) == 0);
    assert(skip_space(s, s.len() as int) == s.len());
}

/// Just after a line feed the row goes up by one and the column is zero.
pub proof fn lemma_newline_starts_row(s: Seq<char>, p: int)
    requires
        0 < p <= s.len(),
        s[p - 1] == '\n',
    ensures
        row_at(s, p) == row_at(s, p - 1) + 1,
        column_at(s, p) == 0,
{
    assert(s.take(p).drop_last() =~= s.take(p - 1));
    assert(s.subrange(p, p) =~= Seq::<char>::empty());
    assert(byte_len(Seq::<char>::empty()) == 0);
}

} // verus!
