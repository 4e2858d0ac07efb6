//! Tokens: the words, literals and symbols that program text is made of.

use vstd::prelude::*;

verus! {

/// A symbol: punctuation or an operator.
#[derive(Clone, Copy, Debug, PartialEq, Eq, Structural)]
pub enum Sym {
    LParen,
    RParen,
    LBrace,
    RBrace,
    LBracket,
    RBracket,
    Comma,
    Semi,
    Colon,
    Dot,
    Question,
    Assign,
    Plus,
    Minus,
    Star,
    Slash,
    Percent,
    AndAnd,
    OrOr,
    Caret,
    Amp,
    Pipe,
    Shl,
    Shr,
    Leq,
    Geq,
    Lt,
    Gt,
    EqEq,
    Neq,
    Bang,
    Tilde,
}

/// A token.
#[derive(Clone, Debug, PartialEq)]
pub enum Token {
    /// A word: a letter or `_`, then letters, digits and `_`.
    Ident(String),
    /// Digits that spell a number up to the largest 64-bit signed integer.
    Int(i64),
    /// Digits, a point and digits, kept as written.
    Float(String),
    /// One character between single quotes.
    Char(char),
    /// The characters between double quotes.
    Text(String),
    Sym(Sym),
}

/// The mathematical model of a [`Token`].
pub enum TokenView {
    Ident(Seq<char>),
    Int(i64),
    Float(Seq<char>),
    Char(char),
    Text(Seq<char>),
    Sym(Sym),
}

impl DeepView for Token {
    type V = TokenView;

    open spec fn deep_view(&self) -> TokenView {
        match self {
            Token::Ident(text) => TokenView::Ident(text@),
            Token::Int(i) => TokenView::Int(*i),
            Token::Float(text) => TokenView::Float(text@),
            Token::Char(c) => TokenView::Char(*c),
            Token::Text(text) => TokenView::Text(text@),
            Token::Sym(sym) => TokenView::Sym(*sym),
        }
    }
}

/// A class of characters.
#[derive(Clone, Copy, Debug, PartialEq, Eq, Structural)]
pub enum CharClass {
    /// Space, tab, line feed, carriage return.
    Space,
    /// `0` to `9`.
    Digit,
    /// A letter of the Latin alphabet, a digit or `_`.
    Word,
    /// Anything but a double quote.
    Quoted,
}

/// Whether a character is a decimal digit.
pub open spec fn is_digit(c: char) -> bool {
    '0' <= c <= '9'
}

/// Whether a character is a letter of the Latin alphabet or `_`.
pub open spec fn is_letter(c: char) -> bool {
    ('a' <= c <= 'z') || ('A' <= c <= 'Z') || c == '_'
}

/// Whether a character is of a class.
pub open spec fn in_class(class: CharClass, c: char) -> bool {
    match class {
        CharClass::Space => c == ' ' || c == '\t' || c == '\n' || c == '\r',
        CharClass::Digit => is_digit(c),
        CharClass::Word => is_letter(c) || is_digit(c),
        CharClass::Quoted => c != '"',
    }
}

fn digit(c: char) -> (yes: bool)
    ensures
        yes == is_digit(c),
{
    '0' <= c && c <= '9'
}

fn letter(c: char) -> (yes: bool)
    ensures
        yes == is_letter(c),
{
    ('a' <= c && c <= 'z') || ('A' <= c && c <= 'Z') || c == '_'
}

fn of_class(class: CharClass, c: char) -> (yes: bool)
    ensures
        yes == in_class(class, c),
{
    match class {
        CharClass::Space => c == ' ' || c == '\t' || c == '\n' || c == '\r',
        CharClass::Digit => digit(c),
        CharClass::Word => letter(c) || digit(c),
        CharClass::Quoted => c != '"',
    }
}

/// The number of characters of a class that stand in a row from `pos` on.
pub open spec fn run_len(text: Seq<char>, pos: int, class: CharClass) -> nat
    decreases text.len() - pos,
{
    if 0 <= pos < text.len() && in_class(class, text[pos]) {
        1 + run_len(text, pos + 1, class)
    } else {
        0
    }
}

/// A run holds characters of its class only, ends within the text, and is
/// not followed by one more of the class.
pub proof fn lemma_run(text: Seq<char>, pos: int, class: CharClass)
    requires
        0 <= pos <= text.len(),
    ensures
        pos + run_len(text, pos, class) <= text.len(),
        forall|k: int| pos <= k < pos + run_len(text, pos, class) ==> in_class(class, text[k]),
        pos + run_len(text, pos, class) < text.len() ==> !in_class(
            class,
            text[pos + run_len(text, pos, class)],
        ),
    decreases text.len() - pos,
{
    if pos < text.len() && in_class(class, text[pos]) {
        lemma_run(text, pos + 1, class);
    }
}

fn scan(chars: &Vec<char>, pos: usize, class: CharClass) -> (end: usize)
    requires
        pos <= chars.len(),
    ensures
        end == pos + run_len(chars@, pos as int, class),
        pos <= end <= chars.len(),
{
    let mut i = pos;
    while i < chars.len() && of_class(class, chars[i])
        invariant
            pos <= i <= chars.len(),
            run_len(chars@, pos as int, class) == (i - pos) + run_len(chars@, i as int, class),
        decreases chars.len() - i,
    {
        i += 1;
    }
    i
}

/// The number that a digit stands for.
pub open spec fn digit_value(c: char) -> nat {
    (c as u32 - '0' as u32) as nat
}

/// The number that a run of digits spells in decimal.
pub open spec fn decimal_value(digits: Seq<char>) -> nat
    decreases digits.len(),
{
    if digits.len() == 0 {
        0
    } else {
        10 * decimal_value(digits.drop_last()) + digit_value(digits.last())
    }
}

proof fn lemma_decimal_grows(digits: Seq<char>, k: int)
    requires
        0 <= k <= digits.len(),
    ensures
        decimal_value(digits.subrange(0, k)) <= decimal_value(digits),
    decreases digits.len() - k,
{
    if k < digits.len() {
        lemma_decimal_grows(digits, k + 1);
        assert(digits.subrange(0, k + 1).drop_last() =~= digits.subrange(0, k));
    } else {
        assert(digits.subrange(0, k) =~= digits);
    }
}

fn read_int(chars: &Vec<char>, from: usize, to: usize) -> (out: Option<i64>)
    requires
        from <= to <= chars.len(),
        forall|k: int| from <= k < to ==> is_digit(chars@[k]),
    ensures
        match out {
            Some(v) => decimal_value(chars@.subrange(from as int, to as int)) == v,
            None => decimal_value(chars@.subrange(from as int, to as int)) > i64::MAX,
        },
{
    let ghost digits = chars@.subrange(from as int, to as int);
    let mut acc: u64 = 0;
    let mut i = from;
    assert(chars@.subrange(from as int, from as int) =~= Seq::<char>::empty());
    while i < to
        invariant
            from <= i <= to <= chars.len(),
            digits == chars@.subrange(from as int, to as int),
            forall|k: int| from <= k < to ==> is_digit(chars@[k]),
            acc <= i64::MAX,
            acc == decimal_value(chars@.subrange(from as int, i as int)),
        decreases to - i,
    {
        let d: u64 = (chars[i] as u32 - '0' as u32) as u64;
        proof {
            let next = chars@.subrange(from as int, i + 1);
            assert(next.drop_last() =~= chars@.subrange(from as int, i as int));
            assert(next.last() == chars@[i as int]);
            assert(decimal_value(next) == 10 * acc + d);
            assert(next =~= digits.subrange(0, i + 1 - from));
            lemma_decimal_grows(digits, i + 1 - from);
        }
        if acc > (0x7fff_ffff_ffff_ffffu64 - d) / 10 {
            return None;
        }
        acc = acc * 10 + d;
        i += 1;
    }
    Some(acc as i64)
}

fn text_of(chars: &Vec<char>, from: usize, to: usize) -> (text: String)
    requires
        from <= to <= chars.len(),
    ensures
        text@ == chars@.subrange(from as int, to as int),
{
    let mut text = String::new();
    let mut i = from;
    while i < to
        invariant
            from <= i <= to <= chars.len(),
            text@ == chars@.subrange(from as int, i as int),
        decreases to - i,
    {
        text.push(chars[i]);
        assert(text@ =~= chars@.subrange(from as int, i + 1));
        i += 1;
    }
    text
}

/// The symbol that two characters spell.
pub open spec fn sym_of_two(a: char, b: char) -> Option<Sym> {
    if a == '&' && b == '&' {
        Some(Sym::AndAnd)
    } else if a == '|' && b == '|' {
        Some(Sym::OrOr)
    } else if a == '<' && b == '<' {
        Some(Sym::Shl)
    } else if a == '>' && b == '>' {
        Some(Sym::Shr)
    } else if a == '<' && b == '=' {
        Some(Sym::Leq)
    } else if a == '>' && b == '=' {
        Some(Sym::Geq)
    } else if a == '=' && b == '=' {
        Some(Sym::EqEq)
    } else if a == '!' && b == '=' {
        Some(Sym::Neq)
    } else {
        None
    }
}

/// The symbol that one character spells.
pub open spec fn sym_of_one(a: char) -> Option<Sym> {
    if a == '(' {
        Some(Sym::LParen)
    } else if a == ')' {
        Some(Sym::RParen)
    } else if a == '{' {
        Some(Sym::LBrace)
    } else if a == '}' {
        Some(Sym::RBrace)
    } else if a == '[' {
        Some(Sym::LBracket)
    } else if a == ']' {
        Some(Sym::RBracket)
    } else if a == ',' {
        Some(Sym::Comma)
    } else if a == ';' {
        Some(Sym::Semi)
    } else if a == ':' {
        Some(Sym::Colon)
    } else if a == '.' {
        Some(Sym::Dot)
    } else if a == '?' {
        Some(Sym::Question)
    } else if a == '=' {
        Some(Sym::Assign)
    } else if a == '+' {
        Some(Sym::Plus)
    } else if a == '-' {
        Some(Sym::Minus)
    } else if a == '*' {
        Some(Sym::Star)
    } else if a == '/' {
        Some(Sym::Slash)
    } else if a == '%' {
        Some(Sym::Percent)
    } else if a == '^' {
        Some(Sym::Caret)
    } else if a == '&' {
        Some(Sym::Amp)
    } else if a == '|' {
        Some(Sym::Pipe)
    } else if a == '<' {
        Some(Sym::Lt)
    } else if a == '>' {
        Some(Sym::Gt)
    } else if a == '!' {
        Some(Sym::Bang)
    } else if a == '~' {
        Some(Sym::Tilde)
    } else {
        None
    }
}

fn two_chars(a: char, b: char) -> (sym: Option<Sym>)
    ensures
        sym == sym_of_two(a, b),
{
    if a == '&' && b == '&' {
        Some(Sym::AndAnd)
    } else if a == '|' && b == '|' {
        Some(Sym::OrOr)
    } else if a == '<' && b == '<' {
        Some(Sym::Shl)
    } else if a == '>' && b == '>' {
        Some(Sym::Shr)
    } else if a == '<' && b == '=' {
        Some(Sym::Leq)
    } else if a == '>' && b == '=' {
        Some(Sym::Geq)
    } else if a == '=' && b == '=' {
        Some(Sym::EqEq)
    } else if a == '!' && b == '=' {
        Some(Sym::Neq)
    } else {
        None
    }
}

fn one_char(a: char) -> (sym: Option<Sym>)
    ensures
        sym == sym_of_one(a),
{
    if a == '(' {
        Some(Sym::LParen)
    } else if a == ')' {
        Some(Sym::RParen)
    } else if a == '{' {
        Some(Sym::LBrace)
    } else if a == '}' {
        Some(Sym::RBrace)
    } else if a == '[' {
        Some(Sym::LBracket)
    } else if a == ']' {
        Some(Sym::RBracket)
    } else if a == ',' {
        Some(Sym::Comma)
    } else if a == ';' {
        Some(Sym::Semi)
    } else if a == ':' {
        Some(Sym::Colon)
    } else if a == '.' {
        Some(Sym::Dot)
    } else if a == '?' {
        Some(Sym::Question)
    } else if a == '=' {
        Some(Sym::Assign)
    } else if a == '+' {
        Some(Sym::Plus)
    } else if a == '-' {
        Some(Sym::Minus)
    } else if a == '*' {
        Some(Sym::Star)
    } else if a == '/' {
        Some(Sym::Slash)
    } else if a == '%' {
        Some(Sym::Percent)
    } else if a == '^' {
        Some(Sym::Caret)
    } else if a == '&' {
        Some(Sym::Amp)
    } else if a == '|' {
        Some(Sym::Pipe)
    } else if a == '<' {
        Some(Sym::Lt)
    } else if a == '>' {
        Some(Sym::Gt)
    } else if a == '!' {
        Some(Sym::Bang)
    } else if a == '~' {
        Some(Sym::Tilde)
    } else {
        None
    }
}

/// The token that starts at `pos`, and its length.
///
/// A word runs as far as letters, digits and `_` go. A number is a run of
/// digits; followed by a point and a digit it is a float, which takes the
/// digits after the point too. A character literal is one character other
/// than `'` between two `'`. A string literal runs to the next `"`. A symbol
/// of two characters is taken before one of one character.
pub open spec fn token_at(text: Seq<char>, pos: int) -> Option<(TokenView, nat)> {
    if pos < 0 || pos >= text.len() {
        None
    } else if is_letter(text[pos]) {
        let n = 1 + run_len(text, pos + 1, CharClass::Word);
        Some((TokenView::Ident(text.subrange(pos, pos + n)), n))
    } else if is_digit(text[pos]) {
        let n = 1 + run_len(text, pos + 1, CharClass::Digit);
        if pos + n + 1 < text.len() && text[pos + n] == '.' && is_digit(text[pos + n + 1]) {
            let m = n + 2 + run_len(text, pos + n + 2, CharClass::Digit);
            Some((TokenView::Float(text.subrange(pos, pos + m)), m))
        } else if decimal_value(text.subrange(pos, pos + n)) <= i64::MAX {
            Some((TokenView::Int(decimal_value(text.subrange(pos, pos + n)) as i64), n))
        } else {
            None
        }
    } else if text[pos] == '\'' {
        if pos + 2 < text.len() && text[pos + 1] != '\'' && text[pos + 2] == '\'' {
            Some((TokenView::Char(text[pos + 1]), 3))
        } else {
            None
        }
    } else if text[pos] == '"' {
        let n = run_len(text, pos + 1, CharClass::Quoted);
        if pos + 1 + n < text.len() {
            Some((TokenView::Text(text.subrange(pos + 1, pos + 1 + n)), n + 2))
        } else {
            None
        }
    } else if pos + 1 < text.len() && sym_of_two(text[pos], text[pos + 1]) is Some {
        Some((TokenView::Sym(sym_of_two(text[pos], text[pos + 1])->Some_0), 2))
    } else if sym_of_one(text[pos]) is Some {
        Some((TokenView::Sym(sym_of_one(text[pos])->Some_0), 1))
    } else {
        None
    }
}

/// The tokens from `pos` on, added to `done`: tokens follow one another,
/// with any white space between them. Nothing, where some character starts
/// no token.
pub open spec fn lex_from(text: Seq<char>, pos: int, done: Seq<TokenView>) -> Option<
    Seq<TokenView>,
>
    decreases text.len() - pos,
{
    let start = pos + run_len(text, pos, CharClass::Space);
    if pos < 0 || start >= text.len() {
        Some(done)
    } else {
        match token_at(text, start) {
            Some((token, n)) => if n == 0 || start + n > text.len() {
                None
            } else {
                lex_from(text, start + n, done.push(token))
            },
            None => None,
        }
    }
}

/// The tokens of a text.
pub open spec fn lex(text: Seq<char>) -> Option<Seq<TokenView>> {
    lex_from(text, 0, Seq::empty())
}

fn next_token(chars: &Vec<char>, pos: usize) -> (out: Option<(Token, usize)>)
    requires
        pos < chars.len(),
    ensures
        match out {
            Some((token, end)) => pos < end <= chars.len() && token_at(chars@, pos as int) == Some(
                (token.deep_view(), (end - pos) as nat),
            ),
            None => token_at(chars@, pos as int) is None,
        },
{
    let c = chars[pos];
    if letter(c) {
        let end = scan(chars, pos + 1, CharClass::Word);
        Some((Token::Ident(text_of(chars, pos, end)), end))
    } else if digit(c) {
        let end = scan(chars, pos + 1, CharClass::Digit);
        if end < chars.len() - 1 && chars[end] == '.' && digit(chars[end + 1]) {
            let last = scan(chars, end + 2, CharClass::Digit);
            Some((Token::Float(text_of(chars, pos, last)), last))
        } else {
            proof {
                lemma_run(chars@, pos + 1, CharClass::Digit);
            }
            match read_int(chars, pos, end) {
                Some(value) => Some((Token::Int(value), end)),
                None => None,
            }
        }
    } else if c == '\'' {
        if chars.len() - pos > 2 && chars[pos + 1] != '\'' && chars[pos + 2] == '\'' {
            Some((Token::Char(chars[pos + 1]), pos + 3))
        } else {
            None
        }
    } else if c == '"' {
        let end = scan(chars, pos + 1, CharClass::Quoted);
        if end < chars.len() {
            Some((Token::Text(text_of(chars, pos + 1, end)), end + 1))
        } else {
            None
        }
    } else {
        if pos + 1 < chars.len() {
            if let Some(sym) = two_chars(c, chars[pos + 1]) {
                return Some((Token::Sym(sym), pos + 2));
            }
        }
        match one_char(c) {
            Some(sym) => Some((Token::Sym(sym), pos + 1)),
            None => None,
        }
    }
}

/// Splits a text into its tokens. Where some character starts no token,
/// the result is the index of a character at or before which the text went
/// wrong.
pub fn tokenize(chars: &Vec<char>) -> (out: Result<Vec<Token>, usize>)
    ensures
        match out {
            Ok(tokens) => lex(chars@) == Some(tokens.deep_view()),
            Err(at) => lex(chars@) is None && at < chars.len(),
        },
{
    let mut tokens: Vec<Token> = Vec::new();
    let mut pos: usize = 0;
    assert(tokens.deep_view() =~= Seq::<TokenView>::empty());
    loop
        invariant
            pos <= chars.len(),
            lex(chars@) == lex_from(chars@, pos as int, tokens.deep_view()),
        decreases chars.len() - pos,
    {
        let start = scan(chars, pos, CharClass::Space);
        if start >= chars.len() {
            return Ok(tokens);
        }
        match next_token(chars, start) {
            Some((token, end)) => {
                let ghost done = tokens.deep_view();
                tokens.push(token);
                assert(tokens.deep_view() =~= done.push(token.deep_view()));
                pos = end;
            },
            None => {
                return Err(start);
            },
        }
    }
}

} // verus!
