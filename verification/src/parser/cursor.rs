//! Looking at the token at a position.

use crate::eval::entries::same_text;
use crate::parser::lexer::{Sym, Token, TokenView};
use vstd::prelude::*;

verus! {

/// Why a text is no program.
#[derive(Clone, Copy, Debug, PartialEq, Eq, Structural)]
pub enum ParseError {
    /// Some character starts no token; the index is that of a character at
    /// or before which the text went wrong.
    Lexical(usize),
    /// The tokens do not follow the grammar; the index is that of a token at
    /// or before which they went wrong.
    Syntax(usize),
    /// Two declarations have the same name.
    DuplicateName,
}

/// Whether the token at `pos` is the symbol `sym`.
pub open spec fn sym_at(tokens: Seq<TokenView>, pos: int, sym: Sym) -> bool {
    0 <= pos < tokens.len() && tokens[pos] == TokenView::Sym(sym)
}

/// The word at `pos`, if the token there is a word.
pub open spec fn ident_at(tokens: Seq<TokenView>, pos: int) -> Option<Seq<char>> {
    if 0 <= pos < tokens.len() && tokens[pos] is Ident {
        Some(tokens[pos]->Ident_0)
    } else {
        None
    }
}

/// Whether the token at `pos` is the word `word`.
pub open spec fn word_at(tokens: Seq<TokenView>, pos: int, word: Seq<char>) -> bool {
    ident_at(tokens, pos) == Some(word)
}

/// A result with `k` more tokens counted as used.
pub open spec fn shifted<T>(r: Option<(T, nat)>, k: nat) -> Option<(T, nat)> {
    match r {
        Some((value, n)) => Some((value, n + k)),
        None => None,
    }
}

/// Whether the token at `pos` is the symbol `sym`.
pub fn is_sym(tokens: &Vec<Token>, pos: usize, sym: Sym) -> (yes: bool)
    ensures
        yes == sym_at(tokens.deep_view(), pos as int, sym),
        yes ==> pos < tokens.len(),
{
    if pos < tokens.len() {
        assert(tokens.deep_view()[pos as int] == tokens[pos as int].deep_view());
        match &tokens[pos] {
            Token::Sym(found) => *found == sym,
            _ => false,
        }
    } else {
        false
    }
}

/// The word at `pos`, if the token there is a word.
pub fn ident(tokens: &Vec<Token>, pos: usize) -> (word: Option<&String>)
    ensures
        match word {
            Some(w) => ident_at(tokens.deep_view(), pos as int) == Some(w@) && pos < tokens.len(),
            None => ident_at(tokens.deep_view(), pos as int) is None,
        },
{
    if pos < tokens.len() {
        assert(tokens.deep_view()[pos as int] == tokens[pos as int].deep_view());
        match &tokens[pos] {
            Token::Ident(word) => Some(word),
            _ => None,
        }
    } else {
        None
    }
}

/// Whether the token at `pos` is the word `word`.
pub fn is_word(tokens: &Vec<Token>, pos: usize, word: &str) -> (yes: bool)
    ensures
        yes == word_at(tokens.deep_view(), pos as int, word@),
        yes ==> pos < tokens.len(),
{
    match ident(tokens, pos) {
        Some(found) => same_text(found.as_str(), word),
        None => false,
    }
}

} // verus!
